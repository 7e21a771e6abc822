//! Output reports (report id 0xB3, 13 bytes) of the gamepad collection.
//!
//! - LED (command 0x01): bytes 2..12 are five (opcode, brightness) pairs for
//!   red, green, blue, the HOME LED and the consumer-area LED; opcode 0x00
//!   leaves the LED alone, 0x01 sets its brightness, 0x02 turns it off.
//! - Rumble (command 0x02): byte 2 enables the motors (bits 1:0 left, bits
//!   3:2 right; 01 start, 10 stop), then left intensity, left duration, right
//!   intensity, right duration (x 0.25 s; 0 = until stopped).

use vstd::prelude::*;

verus! {

/// Report id of the output report.
pub const REPORT_ID_OUTPUT: u8 = 0xB3;
/// Command byte of an LED report.
pub const CMD_LED: u8 = 0x01;
/// Command byte of a rumble report.
pub const CMD_RUMBLE: u8 = 0x02;

/// The bytes of a rumble report.
pub open spec fn spec_rumble_report(
    enable: u8,
    left_intensity: u8,
    left_duration: u8,
    right_intensity: u8,
    right_duration: u8,
) -> Seq<u8> {
    seq![
        REPORT_ID_OUTPUT,
        CMD_RUMBLE,
        enable,
        left_intensity,
        left_duration,
        right_intensity,
        right_duration,
        0u8,
        0u8,
        0u8,
        0u8,
        0u8,
        0u8,
    ]
}

/// Frames a rumble report.
pub fn rumble_report(
    enable: u8,
    left_intensity: u8,
    left_duration: u8,
    right_intensity: u8,
    right_duration: u8,
) -> (r: [u8; 13])
    ensures
        r@ == spec_rumble_report(enable, left_intensity, left_duration, right_intensity, right_duration),
        r[0] == 0xB3 && r[1] == 0x02,
        r[2] == enable,
        r[3] == left_intensity && r[4] == left_duration,
        r[5] == right_intensity && r[6] == right_duration,
        forall|k: int| 7 <= k < 13 ==> r[k] == 0,
{
    let r = [
        REPORT_ID_OUTPUT,
        CMD_RUMBLE,
        enable,
        left_intensity,
        left_duration,
        right_intensity,
        right_duration,
        0,
        0,
        0,
        0,
        0,
        0,
    ];
    assert(r@ =~= spec_rumble_report(enable, left_intensity, left_duration, right_intensity, right_duration));
    r
}

/// Law: a rumble report is 13 bytes, report id 0xB3 and command 0x02, then
/// the motor-enable byte, the left motor's intensity and duration (bytes 3
/// and 4), the right motor's intensity and duration (bytes 5 and 6), and
/// zeros.
pub proof fn lemma_rumble_report_layout(enable: u8, li: u8, ld: u8, ri: u8, rd: u8)
    ensures
        ({
            let r = spec_rumble_report(enable, li, ld, ri, rd);
            &&& r.len() == 13
            &&& r[0] == 0xB3 && r[1] == 0x02
            &&& r[2] == enable
            &&& r[3] == li && r[4] == ld
            &&& r[5] == ri && r[6] == rd
            &&& forall|k: int| 7 <= k < 13 ==> r[k] == 0
        }),
{
}

/// The motor-enable byte for continuous vibration at `large` (left) and
/// `small` (right): start each motor with a nonzero intensity; stop both
/// (0x0A) when both are zero.
pub open spec fn motor_enable(large: u8, small: u8) -> u8 {
    if large == 0 && small == 0 {
        0x0A
    } else {
        ((if large > 0 { 0x01int } else { 0 }) + (if small > 0 { 0x04int } else { 0 })) as u8
    }
}

/// The rumble report for a vibration request of the virtual controller:
/// continuous vibration (duration 0) at the requested intensities, or a stop
/// of both motors when both are zero.
pub open spec fn spec_rumble_command(large: u8, small: u8) -> Seq<u8> {
    if large == 0 && small == 0 {
        spec_rumble_report(0x0A, 0, 0, 0, 0)
    } else {
        spec_rumble_report(motor_enable(large, small), large, 0, small, 0)
    }
}

/// Frames the rumble report for a vibration request (`large` = left motor,
/// `small` = right motor).
pub fn rumble_command(large: u8, small: u8) -> (r: [u8; 13])
    ensures
        r@ == spec_rumble_command(large, small),
{
    if large == 0 && small == 0 {
        return rumble_report(0x0A, 0, 0, 0, 0);
    }
    let mut enable: u8 = 0;
    if large > 0 {
        enable = enable | 0x01;
    }
    if small > 0 {
        enable = enable | 0x04;
    }
    assert(0u8 | 0x01u8 == 1u8 && 0u8 | 0x04u8 == 4u8 && (0u8 | 0x01u8) | 0x04u8 == 5u8) by (bit_vector);
    rumble_report(enable, large, 0, small, 0)
}

/// Milliseconds between pulse commands while vibration is active.
pub const PULSE_INTERVAL_MS: u64 = 30;
/// Milliseconds between polls while the motors are idle.
pub const IDLE_POLL_MS: u64 = 10;

/// The rumble adapter between the host's state-based vibration requests and
/// the controller's pulse mode, which vibrates only while commands keep
/// coming: the requested intensities, whether vibration is on, and whether
/// one stop command is still owed.
#[derive(Clone, Copy, Debug, PartialEq, Eq, Structural)]
pub struct RumbleHeartbeat {
    pub large: u8,
    pub small: u8,
    pub active: bool,
    pub stop_pending: bool,
}

/// The adapter after a vibration request of the host: vibrating at the new
/// intensities, or (for zero intensities) stopped with one stop command owed
/// if it was vibrating.
pub open spec fn heartbeat_notify(st: RumbleHeartbeat, large: u8, small: u8) -> RumbleHeartbeat {
    if large == 0 && small == 0 {
        RumbleHeartbeat { large: 0, small: 0, active: false, stop_pending: st.active || st.stop_pending }
    } else {
        RumbleHeartbeat { large, small, active: true, stop_pending: false }
    }
}

/// One tick of the adapter: the command to send now, if any, and the
/// milliseconds until the next tick. While active it sends a pulse command
/// at the current intensities every `PULSE_INTERVAL_MS`; once it stops it
/// sends one stop command, then idles, polling every `IDLE_POLL_MS`.
pub open spec fn heartbeat_tick(st: RumbleHeartbeat) -> (RumbleHeartbeat, Option<Seq<u8>>, u64) {
    if st.active {
        (st, Some(spec_rumble_command(st.large, st.small)), PULSE_INTERVAL_MS)
    } else if st.stop_pending {
        (RumbleHeartbeat { stop_pending: false, ..st }, Some(spec_rumble_command(0, 0)), IDLE_POLL_MS)
    } else {
        (st, None, IDLE_POLL_MS)
    }
}

impl RumbleHeartbeat {
    /// Idle: no vibration requested and nothing owed.
    pub fn new() -> (r: Self)
        ensures
            r == (RumbleHeartbeat { large: 0, small: 0, active: false, stop_pending: false }),
    {
        RumbleHeartbeat { large: 0, small: 0, active: false, stop_pending: false }
    }

    /// Records a vibration request of the host (`large` = left motor,
    /// `small` = right motor).
    pub fn notify(&mut self, large: u8, small: u8)
        ensures
            *final(self) == heartbeat_notify(*old(self), large, small),
    {
        if large == 0 && small == 0 {
            self.stop_pending = self.active || self.stop_pending;
            self.large = 0;
            self.small = 0;
            self.active = false;
        } else {
            self.large = large;
            self.small = small;
            self.active = true;
            self.stop_pending = false;
        }
    }

    /// One tick: the rumble report to write now, if any, and the delay in
    /// milliseconds before the next tick.
    pub fn tick(&mut self) -> (r: (Option<[u8; 13]>, u64))
        ensures
            *final(self) == heartbeat_tick(*old(self)).0,
            r.1 == heartbeat_tick(*old(self)).2,
            match r.0 {
                Some(a) => heartbeat_tick(*old(self)).1 == Some(a@),
                None => heartbeat_tick(*old(self)).1 is None,
            },
    {
        if self.active {
            (Some(rumble_command(self.large, self.small)), PULSE_INTERVAL_MS)
        } else if self.stop_pending {
            self.stop_pending = false;
            (Some(rumble_command(0, 0)), IDLE_POLL_MS)
        } else {
            (None, IDLE_POLL_MS)
        }
    }
}

/// Law: while vibration is requested, every tick sends the pulse command at
/// the requested intensities and keeps the state, so vibration is sustained.
pub proof fn lemma_heartbeat_sustains(st: RumbleHeartbeat, large: u8, small: u8)
    requires
        large != 0 || small != 0,
    ensures
        ({
            let s1 = heartbeat_notify(st, large, small);
            &&& heartbeat_tick(s1).0 == s1
            &&& heartbeat_tick(s1).1 == Some(spec_rumble_report(motor_enable(large, small), large, 0, small, 0))
            &&& heartbeat_tick(s1).2 == PULSE_INTERVAL_MS
        }),
{
}

/// Law: when vibration ends, exactly one stop command (motor byte 0x0A) is
/// sent, and after it the adapter sends nothing until the next request.
pub proof fn lemma_heartbeat_stops_once(st: RumbleHeartbeat)
    requires
        st.active,
    ensures
        ({
            let s1 = heartbeat_notify(st, 0, 0);
            let t1 = heartbeat_tick(s1);
            let t2 = heartbeat_tick(t1.0);
            &&& t1.1 == Some(spec_rumble_report(0x0A, 0, 0, 0, 0))
            &&& t2.1 is None
            &&& heartbeat_tick(t2.0) == t2
        }),
{
}

/// The bytes of an LED report for the five (opcode, brightness) pairs.
pub open spec fn spec_led_report(zones: Seq<(u8, u8)>) -> Seq<u8> {
    seq![
        REPORT_ID_OUTPUT,
        CMD_LED,
        zones[0].0,
        zones[0].1,
        zones[1].0,
        zones[1].1,
        zones[2].0,
        zones[2].1,
        zones[3].0,
        zones[3].1,
        zones[4].0,
        zones[4].1,
        0u8,
    ]
}

/// Frames an LED report for the red, green, blue, HOME and consumer-area
/// (opcode, brightness) pairs.
pub fn led_report(zones: [(u8, u8); 5]) -> (r: [u8; 13])
    ensures
        r@ == spec_led_report(zones@),
{
    let r = [
        REPORT_ID_OUTPUT,
        CMD_LED,
        zones[0].0,
        zones[0].1,
        zones[1].0,
        zones[1].1,
        zones[2].0,
        zones[2].1,
        zones[3].0,
        zones[3].1,
        zones[4].0,
        zones[4].1,
        0,
    ];
    assert(r@ =~= spec_led_report(zones@));
    r
}

/// Opcode: leave the LED as it is.
pub const LED_KEEP: u8 = 0x00;
/// Opcode: set the LED's brightness.
pub const LED_SET: u8 = 0x01;
/// Opcode: turn the LED off.
pub const LED_OFF: u8 = 0x02;

/// Red at `brightness`, green and blue off.
pub fn led_red(brightness: u8) -> (r: [u8; 13])
    ensures
        r@ == spec_led_report(seq![(LED_SET, brightness), (LED_OFF, 0u8), (LED_OFF, 0u8), (LED_KEEP, 0u8), (LED_KEEP, 0u8)]),
{
    let z = [(LED_SET, brightness), (LED_OFF, 0), (LED_OFF, 0), (LED_KEEP, 0), (LED_KEEP, 0)];
    assert(z@ =~= seq![(LED_SET, brightness), (LED_OFF, 0u8), (LED_OFF, 0u8), (LED_KEEP, 0u8), (LED_KEEP, 0u8)]);
    led_report(z)
}

/// Green at `brightness`, red and blue off.
pub fn led_green(brightness: u8) -> (r: [u8; 13])
    ensures
        r@ == spec_led_report(seq![(LED_OFF, 0u8), (LED_SET, brightness), (LED_OFF, 0u8), (LED_KEEP, 0u8), (LED_KEEP, 0u8)]),
{
    let z = [(LED_OFF, 0), (LED_SET, brightness), (LED_OFF, 0), (LED_KEEP, 0), (LED_KEEP, 0)];
    assert(z@ =~= seq![(LED_OFF, 0u8), (LED_SET, brightness), (LED_OFF, 0u8), (LED_KEEP, 0u8), (LED_KEEP, 0u8)]);
    led_report(z)
}

/// Blue at `brightness`, red and green off.
pub fn led_blue(brightness: u8) -> (r: [u8; 13])
    ensures
        r@ == spec_led_report(seq![(LED_OFF, 0u8), (LED_OFF, 0u8), (LED_SET, brightness), (LED_KEEP, 0u8), (LED_KEEP, 0u8)]),
{
    let z = [(LED_OFF, 0), (LED_OFF, 0), (LED_SET, brightness), (LED_KEEP, 0), (LED_KEEP, 0)];
    assert(z@ =~= seq![(LED_OFF, 0u8), (LED_OFF, 0u8), (LED_SET, brightness), (LED_KEEP, 0u8), (LED_KEEP, 0u8)]);
    led_report(z)
}

/// Red, green and blue at full brightness (white).
pub fn led_white() -> (r: [u8; 13])
    ensures
        r@ == spec_led_report(seq![(LED_SET, 0xFFu8), (LED_SET, 0xFFu8), (LED_SET, 0xFFu8), (LED_KEEP, 0u8), (LED_KEEP, 0u8)]),
{
    let z = [(LED_SET, 0xFF), (LED_SET, 0xFF), (LED_SET, 0xFF), (LED_KEEP, 0), (LED_KEEP, 0)];
    assert(z@ =~= seq![(LED_SET, 0xFFu8), (LED_SET, 0xFFu8), (LED_SET, 0xFFu8), (LED_KEEP, 0u8), (LED_KEEP, 0u8)]);
    led_report(z)
}

/// Every LED off.
pub fn led_all_off() -> (r: [u8; 13])
    ensures
        r@ == spec_led_report(seq![(LED_OFF, 0u8), (LED_OFF, 0u8), (LED_OFF, 0u8), (LED_OFF, 0u8), (LED_OFF, 0u8)]),
{
    let z = [(LED_OFF, 0), (LED_OFF, 0), (LED_OFF, 0), (LED_OFF, 0), (LED_OFF, 0)];
    assert(z@ =~= seq![(LED_OFF, 0u8), (LED_OFF, 0u8), (LED_OFF, 0u8), (LED_OFF, 0u8), (LED_OFF, 0u8)]);
    led_report(z)
}

/// The opcode that sets an LED to `brightness`: off for 0.
pub open spec fn level_op(brightness: u8) -> u8 {
    if brightness == 0 {
        LED_OFF
    } else {
        LED_SET
    }
}

/// The HOME LED at `brightness` (off for 0), the others left alone.
pub fn led_home(brightness: u8) -> (r: [u8; 13])
    ensures
        r@ == spec_led_report(seq![(LED_KEEP, 0u8), (LED_KEEP, 0u8), (LED_KEEP, 0u8), (level_op(brightness), brightness), (LED_KEEP, 0u8)]),
{
    let op = if brightness == 0 { LED_OFF } else { LED_SET };
    let z = [(LED_KEEP, 0), (LED_KEEP, 0), (LED_KEEP, 0), (op, brightness), (LED_KEEP, 0)];
    assert(z@ =~= seq![(LED_KEEP, 0u8), (LED_KEEP, 0u8), (LED_KEEP, 0u8), (level_op(brightness), brightness), (LED_KEEP, 0u8)]);
    led_report(z)
}

/// The consumer-area LED at `brightness` (off for 0), the others left alone.
pub fn led_consumer(brightness: u8) -> (r: [u8; 13])
    ensures
        r@ == spec_led_report(seq![(LED_KEEP, 0u8), (LED_KEEP, 0u8), (LED_KEEP, 0u8), (LED_KEEP, 0u8), (level_op(brightness), brightness)]),
{
    let op = if brightness == 0 { LED_OFF } else { LED_SET };
    let z = [(LED_KEEP, 0), (LED_KEEP, 0), (LED_KEEP, 0), (LED_KEEP, 0), (op, brightness)];
    assert(z@ =~= seq![(LED_KEEP, 0u8), (LED_KEEP, 0u8), (LED_KEEP, 0u8), (LED_KEEP, 0u8), (level_op(brightness), brightness)]);
    led_report(z)
}

} // verus!
