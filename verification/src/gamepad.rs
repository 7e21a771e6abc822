//! Input reports of the OBOX controller and the shared controller state that
//! they update.
//!
//! - Gamepad collection (Col01), report id 0x07, 16 bytes: buttons (u16 LE),
//!   hat (low 4 bits), LX, LY, RX, RY, L2, R2 (each u16 LE).
//! - Consumer collection (Col03), report id 0x0A, 7 bytes: three usage slots
//!   (u16 LE each); a slot holds the usage of a held key or 0. Slots carry no
//!   order, so key changes are found by comparing usage sets.

use vstd::prelude::*;
use crate::buttons::{
    gamepad_xbox_buttons, map_gamepad_buttons, consumer_usage_to_xbox, spec_consumer_usage_to_xbox,
    spec_trigger_to_byte, trigger_to_byte, USAGE_BACK, USAGE_HOME, USAGE_MENU, XB_BACK, XB_GUIDE,
    XB_START,
};

verus! {

/// Report id of the gamepad input report.
pub const REPORT_ID_GAMEPAD: u8 = 0x07;
/// Report id of the consumer input report.
pub const REPORT_ID_CONSUMER: u8 = 0x0A;

/// The little-endian 16-bit value of the bytes `lo`, `hi`.
pub open spec fn le16(lo: u8, hi: u8) -> u16 {
    (lo as int + 256 * hi as int) as u16
}

/// Reads the little-endian u16 at `buf[i..i + 2]`.
pub fn read_le16(buf: &[u8], i: usize) -> (r: u16)
    requires
        i + 1 < buf@.len(),
    ensures
        r == le16(buf@[i as int], buf@[i + 1]),
{
    buf[i] as u16 + (buf[i + 1] as u16) * 256
}

/// The raw fields of a gamepad input report.
#[derive(Clone, Copy, Debug, PartialEq, Eq, Structural)]
pub struct GamepadReport {
    pub buttons: u16,
    pub hat: u8,
    pub lx: u16,
    pub ly: u16,
    pub rx: u16,
    pub ry: u16,
    pub l2: u16,
    pub r2: u16,
}

/// The fields of the gamepad report in `buf` (at least 16 bytes).
pub open spec fn gamepad_fields(buf: Seq<u8>) -> GamepadReport {
    GamepadReport {
        buttons: le16(buf[1], buf[2]),
        hat: buf[3] & 0x0F,
        lx: le16(buf[4], buf[5]),
        ly: le16(buf[6], buf[7]),
        rx: le16(buf[8], buf[9]),
        ry: le16(buf[10], buf[11]),
        l2: le16(buf[12], buf[13]),
        r2: le16(buf[14], buf[15]),
    }
}

/// Decodes the fields of a gamepad report held in `buf` (at least 16 bytes).
pub fn decode_gamepad_fields(buf: &[u8]) -> (r: GamepadReport)
    requires
        buf@.len() >= 16,
    ensures
        r == gamepad_fields(buf@),
{
    GamepadReport {
        buttons: read_le16(buf, 1),
        hat: buf[3] & 0x0F,
        lx: read_le16(buf, 4),
        ly: read_le16(buf, 6),
        rx: read_le16(buf, 8),
        ry: read_le16(buf, 10),
        l2: read_le16(buf, 12),
        r2: read_le16(buf, 14),
    }
}

/// Decodes `report` (the bytes read) when it is a gamepad report: at least 16
/// bytes, starting with report id 0x07.
pub fn parse_gamepad_report(report: &[u8]) -> (r: Option<GamepadReport>)
    ensures
        r == (if report@.len() >= 16 && report@[0] == REPORT_ID_GAMEPAD {
            Some(gamepad_fields(report@))
        } else {
            None
        }),
{
    if report.len() >= 16 && report[0] == REPORT_ID_GAMEPAD {
        Some(decode_gamepad_fields(report))
    } else {
        None
    }
}

/// Whether `u` is one of the nonzero usages in the three slots of `buf`.
pub open spec fn slot_holds(buf: Seq<u8>, u: u16) -> bool {
    u != 0 && (u == le16(buf[1], buf[2]) || u == le16(buf[3], buf[4]) || u == le16(buf[5], buf[6]))
}

/// Whether `v` holds `u` (a usage set is a `Vec` without repeats).
pub fn contains_u16(v: &Vec<u16>, u: u16) -> (r: bool)
    ensures
        r == v@.contains(u),
{
    let mut i: usize = 0;
    while i < v.len()
        invariant
            i <= v@.len(),
            forall|k: int| 0 <= k < i ==> v@[k] != u,
        decreases v.len() - i,
    {
        if v[i] == u {
            return true;
        }
        i = i + 1;
    }
    false
}

/// The set of usages held in `report` (the bytes read) when it is a consumer
/// report: at least 7 bytes, starting with report id 0x0A.
pub fn parse_consumer_report(report: &[u8]) -> (r: Option<Vec<u16>>)
    ensures
        r is Some <==> (report@.len() >= 7 && report@[0] == REPORT_ID_CONSUMER),
        r matches Some(v) ==> v@.no_duplicates() && forall|u: u16| #[trigger] v@.contains(u) <==> slot_holds(report@, u),
{
    if report.len() < 7 || report[0] != REPORT_ID_CONSUMER {
        return None;
    }
    let slots = [read_le16(report, 1), read_le16(report, 3), read_le16(report, 5)];
    let mut set: Vec<u16> = Vec::new();
    let mut i: usize = 0;
    while i < 3
        invariant
            i <= 3,
            slots@ == seq![le16(report@[1], report@[2]), le16(report@[3], report@[4]), le16(report@[5], report@[6])],
            set@.no_duplicates(),
            forall|u: u16| #[trigger] set@.contains(u) <==> (u != 0 && exists|k: int| 0 <= k < i && slots@[k] == u),
        decreases 3 - i,
    {
        let u = slots[i];
        let ghost prev = set@;
        if u != 0 && !contains_u16(&set, u) {
            set.push(u);
            assert forall|w: u16| #[trigger] set@.contains(w) <==> (w == u || prev.contains(w)) by {
                if set@.contains(w) {
                    let k = choose|k: int| 0 <= k < set@.len() && set@[k] == w;
                    if k < prev.len() {
                        assert(prev[k] == w);
                    }
                }
                if prev.contains(w) {
                    let k = choose|k: int| 0 <= k < prev.len() && prev[k] == w;
                    assert(set@[k] == w);
                }
                if w == u {
                    assert(set@[prev.len() as int] == w);
                }
            }
        }
        assert forall|w: u16| #[trigger] set@.contains(w) <==> (w != 0 && exists|k: int| 0 <= k < i + 1 && slots@[k] == w) by {
            if w != 0 && slots@[i as int] == w {
                assert(set@.contains(w));
            }
        }
        i = i + 1;
    }
    assert forall|u: u16| #[trigger] set@.contains(u) <==> slot_holds(report@, u) by {
        if slot_holds(report@, u) {
            if u == le16(report@[1], report@[2]) {
                assert(slots@[0] == u);
            } else if u == le16(report@[3], report@[4]) {
                assert(slots@[1] == u);
            } else {
                assert(slots@[2] == u);
            }
        }
    }
    Some(set)
}

/// Joystick values handed to the virtual controller, already scaled.
#[derive(Clone, Copy, Debug, PartialEq, Eq, Structural)]
pub struct Thumbs {
    pub lx: i16,
    pub ly: i16,
    pub rx: i16,
    pub ry: i16,
}

/// The state shared by the gamepad reader, the consumer reader and the
/// output loop.
#[derive(Clone, Copy, Debug, PartialEq, Eq, Structural)]
pub struct ControllerState {
    /// Buttons from the gamepad collection (A/B/X/Y/LB/RB/L3/R3 and D-pad).
    pub gamepad_buttons: u16,
    /// Buttons from the consumer collection (Back/Start/Guide).
    pub consumer_buttons: u16,
    pub lt: u8,
    pub rt: u8,
    pub thumb_lx: i16,
    pub thumb_ly: i16,
    pub thumb_rx: i16,
    pub thumb_ry: i16,
    /// Whether the virtual controller has not seen the latest state yet.
    pub dirty: bool,
}

impl ControllerState {
    /// The state at start-up: everything released, marked dirty so that a
    /// zero state is sent once.
    pub fn new() -> (r: Self)
        ensures
            r == (ControllerState {
                gamepad_buttons: 0,
                consumer_buttons: 0,
                lt: 0,
                rt: 0,
                thumb_lx: 0,
                thumb_ly: 0,
                thumb_rx: 0,
                thumb_ry: 0,
                dirty: true,
            }),
    {
        ControllerState {
            gamepad_buttons: 0,
            consumer_buttons: 0,
            lt: 0,
            rt: 0,
            thumb_lx: 0,
            thumb_ly: 0,
            thumb_rx: 0,
            thumb_ry: 0,
            dirty: true,
        }
    }
}

impl Default for ControllerState {
    fn default() -> (r: Self)
        ensures
            r == (ControllerState {
                gamepad_buttons: 0,
                consumer_buttons: 0,
                lt: 0,
                rt: 0,
                thumb_lx: 0,
                thumb_ly: 0,
                thumb_rx: 0,
                thumb_ry: 0,
                dirty: true,
            }),
    {
        ControllerState::new()
    }
}

/// Updates `state` from the gamepad report in `buf` (at least 16 bytes):
/// buttons and D-pad, triggers, and the joystick values `thumbs` that were
/// scaled from the report's stick fields; the consumer buttons stay.
pub fn update_gamepad_state(state: &mut ControllerState, buf: &[u8], thumbs: Thumbs)
    requires
        buf@.len() >= 16,
    ensures
        ({
            let f = gamepad_fields(buf@);
            *final(state) == ControllerState {
                gamepad_buttons: gamepad_xbox_buttons(f.buttons, f.hat),
                consumer_buttons: old(state).consumer_buttons,
                lt: spec_trigger_to_byte(f.l2),
                rt: spec_trigger_to_byte(f.r2),
                thumb_lx: thumbs.lx,
                thumb_ly: thumbs.ly,
                thumb_rx: thumbs.rx,
                thumb_ry: thumbs.ry,
                dirty: true,
            }
        }),
{
    let f = decode_gamepad_fields(buf);
    let xb_raw = map_gamepad_buttons(f.buttons, f.hat);
    let lt = trigger_to_byte(f.l2);
    let rt = trigger_to_byte(f.r2);
    state.gamepad_buttons = xb_raw;
    state.lt = lt;
    state.rt = rt;
    state.thumb_lx = thumbs.lx;
    state.thumb_ly = thumbs.ly;
    state.thumb_rx = thumbs.rx;
    state.thumb_ry = thumbs.ry;
    state.dirty = true;
}

/// The Back/Start/Guide bits selected by three flags.
pub open spec fn consumer_mask(back: bool, menu: bool, home: bool) -> u16 {
    (if back { XB_BACK } else { 0u16 }) | (if menu { XB_START } else { 0u16 }) | (if home {
        XB_GUIDE
    } else {
        0u16
    })
}

/// The buttons of the keys held in the usage set `s`.
pub open spec fn usage_mask(s: Seq<u16>) -> u16 {
    consumer_mask(s.contains(USAGE_BACK), s.contains(USAGE_MENU), s.contains(USAGE_HOME))
}

/// Whether usage `u` appears in `curr` but not in `prev`.
pub open spec fn newly(prev: Seq<u16>, curr: Seq<u16>, u: u16) -> bool {
    curr.contains(u) && !prev.contains(u)
}

/// The buttons of the keys pressed between the usage sets `prev` and `curr`.
pub open spec fn pressed_mask(prev: Seq<u16>, curr: Seq<u16>) -> u16 {
    consumer_mask(newly(prev, curr, USAGE_BACK), newly(prev, curr, USAGE_MENU), newly(prev, curr, USAGE_HOME))
}

/// The buttons of the keys released between the usage sets `prev` and `curr`.
pub open spec fn released_mask(prev: Seq<u16>, curr: Seq<u16>) -> u16 {
    pressed_mask(curr, prev)
}

/// Whether any mapped key changed between `prev` and `curr`.
pub open spec fn consumer_changed(prev: Seq<u16>, curr: Seq<u16>) -> bool {
    ||| newly(prev, curr, USAGE_BACK) ||| newly(prev, curr, USAGE_MENU) ||| newly(prev, curr, USAGE_HOME)
    ||| newly(curr, prev, USAGE_BACK) ||| newly(curr, prev, USAGE_MENU) ||| newly(curr, prev, USAGE_HOME)
}

proof fn lemma_or_flag(x: u16, a: bool, b: bool, c: bool)
    ensures
        (x | consumer_mask(a, b, c)) | XB_BACK == x | consumer_mask(true, b, c),
        (x | consumer_mask(a, b, c)) | XB_START == x | consumer_mask(a, true, c),
        (x | consumer_mask(a, b, c)) | XB_GUIDE == x | consumer_mask(a, b, true),
        x | consumer_mask(false, false, false) == x,
{
    assert((x | consumer_mask(a, b, c)) | XB_BACK == x | consumer_mask(true, b, c)) by (bit_vector);
    assert((x | consumer_mask(a, b, c)) | XB_START == x | consumer_mask(a, true, c)) by (bit_vector);
    assert((x | consumer_mask(a, b, c)) | XB_GUIDE == x | consumer_mask(a, b, true)) by (bit_vector);
    assert(x | consumer_mask(false, false, false) == x) by (bit_vector);
}

proof fn lemma_clear_flag(x: u16, a: bool, b: bool, c: bool)
    ensures
        (x & !consumer_mask(a, b, c)) & !XB_BACK == x & !consumer_mask(true, b, c),
        (x & !consumer_mask(a, b, c)) & !XB_START == x & !consumer_mask(a, true, c),
        (x & !consumer_mask(a, b, c)) & !XB_GUIDE == x & !consumer_mask(a, b, true),
        x & !consumer_mask(false, false, false) == x,
{
    assert((x & !consumer_mask(a, b, c)) & !XB_BACK == x & !consumer_mask(true, b, c)) by (bit_vector);
    assert((x & !consumer_mask(a, b, c)) & !XB_START == x & !consumer_mask(a, true, c)) by (bit_vector);
    assert((x & !consumer_mask(a, b, c)) & !XB_GUIDE == x & !consumer_mask(a, b, true)) by (bit_vector);
    assert(x & !consumer_mask(false, false, false) == x) by (bit_vector);
}

/// Applies to `state` the keys pressed and released between the usage sets
/// `prev` (the previous consumer report) and `curr` (this one): pressed keys
/// set their button, released keys clear it, and any change marks the state
/// dirty.
pub fn apply_consumer_usages(state: &mut ControllerState, prev: &Vec<u16>, curr: &Vec<u16>)
    ensures
        final(state).consumer_buttons == (old(state).consumer_buttons | pressed_mask(prev@, curr@))
            & !released_mask(prev@, curr@),
        final(state).dirty == (old(state).dirty || consumer_changed(prev@, curr@)),
        final(state).gamepad_buttons == old(state).gamepad_buttons,
        final(state).lt == old(state).lt,
        final(state).rt == old(state).rt,
        final(state).thumb_lx == old(state).thumb_lx,
        final(state).thumb_ly == old(state).thumb_ly,
        final(state).thumb_rx == old(state).thumb_rx,
        final(state).thumb_ry == old(state).thumb_ry,
{
    let ghost x0 = state.consumer_buttons;
    let ghost d0 = state.dirty;
    let ghost p = prev@;
    let ghost c = curr@;
    let mut i: usize = 0;
    proof {
        lemma_or_flag(x0, false, false, false);
    }
    while i < curr.len()
        invariant
            i <= c.len(),
            c == curr@,
            p == prev@,
            state.consumer_buttons == x0 | consumer_mask(
                newly(p, c.take(i as int), USAGE_BACK),
                newly(p, c.take(i as int), USAGE_MENU),
                newly(p, c.take(i as int), USAGE_HOME),
            ),
            state.dirty == (d0 || newly(p, c.take(i as int), USAGE_BACK) || newly(p, c.take(i as int), USAGE_MENU)
                || newly(p, c.take(i as int), USAGE_HOME)),
            state.gamepad_buttons == old(state).gamepad_buttons,
            state.lt == old(state).lt,
            state.rt == old(state).rt,
            state.thumb_lx == old(state).thumb_lx,
            state.thumb_ly == old(state).thumb_ly,
            state.thumb_rx == old(state).thumb_rx,
            state.thumb_ry == old(state).thumb_ry,
        decreases curr.len() - i,
    {
        let u = curr[i];
        let ghost t0 = c.take(i as int);
        let ghost t1 = c.take(i + 1);
        assert(t1 =~= t0.push(u));
        assert forall|w: u16| #[trigger] t1.contains(w) <==> (t0.contains(w) || w == u) by {
            if t1.contains(w) {
                let k = choose|k: int| 0 <= k < t1.len() && t1[k] == w;
                if k < t0.len() {
                    assert(t0[k] == w);
                }
            }
            if t0.contains(w) {
                let k = choose|k: int| 0 <= k < t0.len() && t0[k] == w;
                assert(t1[k] == w);
            }
            if w == u {
                assert(t1[i as int] == w);
            }
        }
        proof {
            lemma_or_flag(
                x0,
                newly(p, t0, USAGE_BACK),
                newly(p, t0, USAGE_MENU),
                newly(p, t0, USAGE_HOME),
            );
        }
        if !contains_u16(prev, u) {
            if let Some(btn) = consumer_usage_to_xbox(u) {
                state.consumer_buttons = state.consumer_buttons | btn;
                state.dirty = true;
            }
        }
        i = i + 1;
    }
    assert(c.take(c.len() as int) =~= c);
    let ghost x1 = state.consumer_buttons;
    let ghost d1 = state.dirty;
    let mut j: usize = 0;
    proof {
        lemma_clear_flag(x1, false, false, false);
    }
    while j < prev.len()
        invariant
            j <= p.len(),
            c == curr@,
            p == prev@,
            x1 == x0 | pressed_mask(p, c),
            state.consumer_buttons == x1 & !consumer_mask(
                newly(c, p.take(j as int), USAGE_BACK),
                newly(c, p.take(j as int), USAGE_MENU),
                newly(c, p.take(j as int), USAGE_HOME),
            ),
            state.dirty == (d1 || newly(c, p.take(j as int), USAGE_BACK) || newly(c, p.take(j as int), USAGE_MENU)
                || newly(c, p.take(j as int), USAGE_HOME)),
            state.gamepad_buttons == old(state).gamepad_buttons,
            state.lt == old(state).lt,
            state.rt == old(state).rt,
            state.thumb_lx == old(state).thumb_lx,
            state.thumb_ly == old(state).thumb_ly,
            state.thumb_rx == old(state).thumb_rx,
            state.thumb_ry == old(state).thumb_ry,
        decreases prev.len() - j,
    {
        let u = prev[j];
        let ghost t0 = p.take(j as int);
        let ghost t1 = p.take(j + 1);
        assert(t1 =~= t0.push(u));
        assert forall|w: u16| #[trigger] t1.contains(w) <==> (t0.contains(w) || w == u) by {
            if t1.contains(w) {
                let k = choose|k: int| 0 <= k < t1.len() && t1[k] == w;
                if k < t0.len() {
                    assert(t0[k] == w);
                }
            }
            if t0.contains(w) {
                let k = choose|k: int| 0 <= k < t0.len() && t0[k] == w;
                assert(t1[k] == w);
            }
            if w == u {
                assert(t1[j as int] == w);
            }
        }
        proof {
            lemma_clear_flag(
                x1,
                newly(c, t0, USAGE_BACK),
                newly(c, t0, USAGE_MENU),
                newly(c, t0, USAGE_HOME),
            );
        }
        if !contains_u16(curr, u) {
            if let Some(btn) = consumer_usage_to_xbox(u) {
                state.consumer_buttons = state.consumer_buttons & !btn;
                state.dirty = true;
            }
        }
        j = j + 1;
    }
    assert(p.take(p.len() as int) =~= p);
}

/// Law: when the consumer buttons match the previous usage set, applying the
/// next report makes them match the new usage set; a report equal to the
/// previous one changes nothing.
pub proof fn lemma_consumer_buttons_track_held_keys(x: u16, prev: Seq<u16>, curr: Seq<u16>)
    requires
        x == usage_mask(prev),
    ensures
        (x | pressed_mask(prev, curr)) & !released_mask(prev, curr) == usage_mask(curr),
        prev == curr ==> !consumer_changed(prev, curr),
{
    let pb = prev.contains(USAGE_BACK);
    let pm = prev.contains(USAGE_MENU);
    let ph = prev.contains(USAGE_HOME);
    let cb = curr.contains(USAGE_BACK);
    let cm = curr.contains(USAGE_MENU);
    let ch = curr.contains(USAGE_HOME);
    assert((consumer_mask(pb, pm, ph) | consumer_mask(cb && !pb, cm && !pm, ch && !ph)) & !consumer_mask(
        pb && !cb,
        pm && !cm,
        ph && !ch,
    ) == consumer_mask(cb, cm, ch)) by (bit_vector);
}

/// The report that the virtual Xbox 360 controller is sent.
#[derive(Clone, Copy, Debug, PartialEq, Eq, Structural)]
pub struct PadReport {
    pub buttons: u16,
    pub left_trigger: u8,
    pub right_trigger: u8,
    pub thumb_lx: i16,
    pub thumb_ly: i16,
    pub thumb_rx: i16,
    pub thumb_ry: i16,
}

/// The report that `s` describes: gamepad and consumer buttons together.
pub open spec fn pad_report_of(s: ControllerState) -> PadReport {
    PadReport {
        buttons: s.gamepad_buttons | s.consumer_buttons,
        left_trigger: s.lt,
        right_trigger: s.rt,
        thumb_lx: s.thumb_lx,
        thumb_ly: s.thumb_ly,
        thumb_rx: s.thumb_rx,
        thumb_ry: s.thumb_ry,
    }
}

/// The state after taking the pending report, and that report: the state's
/// report when it changed since the last one was taken, else none.
pub open spec fn take_step(s: ControllerState) -> (ControllerState, Option<PadReport>) {
    (ControllerState { dirty: false, ..s }, if s.dirty {
        Some(pad_report_of(s))
    } else {
        None
    })
}

/// Law: a state change is reported once: taking again right after a take
/// yields nothing and leaves the state as it is.
pub proof fn lemma_report_taken_once(s: ControllerState)
    ensures
        take_step(take_step(s).0).1 is None,
        take_step(take_step(s).0).0 == take_step(s).0,
{
}

/// Law: the report taken from a changed state carries the state's own values
/// in place: the left trigger as the left trigger, the right as the right,
/// each stick axis as itself, and the gamepad and consumer buttons together.
pub proof fn lemma_taken_report_fields(s: ControllerState)
    requires
        s.dirty,
    ensures
        take_step(s).1 matches Some(p) && p.buttons == s.gamepad_buttons | s.consumer_buttons
            && p.left_trigger == s.lt && p.right_trigger == s.rt && p.thumb_lx == s.thumb_lx
            && p.thumb_ly == s.thumb_ly && p.thumb_rx == s.thumb_rx && p.thumb_ry == s.thumb_ry,
        !take_step(s).0.dirty,
{
}

impl ControllerState {
    /// The report to send when the state changed since the last one was taken
    /// (and marks it sent), or `None`.
    pub fn take_pending_report(&mut self) -> (r: Option<PadReport>)
        ensures
            (*final(self), r) == take_step(*old(self)),
            r is Some <==> old(self).dirty,
            r matches Some(p) ==> {
                &&& p.buttons == old(self).gamepad_buttons | old(self).consumer_buttons
                &&& p.left_trigger == old(self).lt
                &&& p.right_trigger == old(self).rt
                &&& p.thumb_lx == old(self).thumb_lx
                &&& p.thumb_ly == old(self).thumb_ly
                &&& p.thumb_rx == old(self).thumb_rx
                &&& p.thumb_ry == old(self).thumb_ry
            },
            !final(self).dirty,
    {
        if self.dirty {
            self.dirty = false;
            Some(
                PadReport {
                    buttons: self.gamepad_buttons | self.consumer_buttons,
                    left_trigger: self.lt,
                    right_trigger: self.rt,
                    thumb_lx: self.thumb_lx,
                    thumb_ly: self.thumb_ly,
                    thumb_rx: self.thumb_rx,
                    thumb_ry: self.thumb_ry,
                },
            )
        } else {
            None
        }
    }
}


/// USB vendor id of the OBOX controller (Broadcom's default id).
pub const VENDOR_ID: u16 = 0x0A5C;
/// USB product id of the OBOX controller.
pub const PRODUCT_ID: u16 = 0x4502;

/// What the HID enumeration tells of one interface.
pub struct DeviceInfo {
    pub vendor_id: u16,
    pub product_id: u16,
    pub usage_page: u16,
    pub usage: u16,
    pub path: String,
}

/// Whether `d` is the OBOX controller's collection with this usage page and usage.
pub open spec fn is_obox_collection(d: DeviceInfo, usage_page: u16, usage: u16) -> bool {
    d.vendor_id == VENDOR_ID && d.product_id == PRODUCT_ID && d.usage_page == usage_page
        && d.usage == usage
}

/// Finds, among the enumerated HID interfaces, the path of the first OBOX
/// collection with the given usage page and usage (0x01/0x05 = gamepad,
/// 0x0C/0x01 = consumer control).
pub fn find_path(devices: &Vec<DeviceInfo>, usage_page: u16, usage: u16) -> (r: Option<String>)
    ensures
        match r {
            Some(p) => exists|k: int|
                0 <= k < devices@.len() && is_obox_collection(#[trigger] devices@[k], usage_page, usage)
                    && p@ == devices@[k].path@ && forall|j: int|
                    0 <= j < k ==> !is_obox_collection(#[trigger] devices@[j], usage_page, usage),
            None => forall|k: int|
                0 <= k < devices@.len() ==> !is_obox_collection(#[trigger] devices@[k], usage_page, usage),
        },
{
    let mut i: usize = 0;
    while i < devices.len()
        invariant
            i <= devices@.len(),
            forall|j: int| 0 <= j < i ==> !is_obox_collection(#[trigger] devices@[j], usage_page, usage),
        decreases devices.len() - i,
    {
        let d = &devices[i];
        if d.vendor_id == VENDOR_ID && d.product_id == PRODUCT_ID && d.usage_page == usage_page
            && d.usage == usage {
            let p = d.path.clone();
            assert(is_obox_collection(devices@[i as int], usage_page, usage));
            return Some(p);
        }
        i = i + 1;
    }
    None
}

} // verus!
