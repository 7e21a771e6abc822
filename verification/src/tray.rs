//! The system tray: status texts, the LED menu and the tray icon image.

use vstd::prelude::*;
use crate::output::{led_report, spec_led_report, LED_KEEP, LED_OFF, LED_SET};
use crate::text::{chars_eq, chars_of, push_str_chars, string_of};

verus! {

/// Whether the controller is connected.
#[derive(Clone, Copy, Debug, PartialEq, Eq, Structural)]
pub enum ConnectionStatus {
    Disconnected,
    Connected,
    Reconnecting,
}

/// The status line of the tray menu.
pub open spec fn spec_status_text(status: ConnectionStatus) -> &'static str {
    match status {
        ConnectionStatus::Disconnected => "Status: Disconnected",
        ConnectionStatus::Connected => "Status: Connected",
        ConnectionStatus::Reconnecting => "Status: Reconnecting...",
    }
}

/// The status line of the tray menu for `status`.
pub fn status_text(status: ConnectionStatus) -> (r: &'static str)
    ensures
        r == spec_status_text(status),
{
    match status {
        ConnectionStatus::Disconnected => "Status: Disconnected",
        ConnectionStatus::Connected => "Status: Connected",
        ConnectionStatus::Reconnecting => "Status: Reconnecting...",
    }
}

/// The MAC line of the tray menu: `MAC: ` and the address, or `N/A` when it
/// is not known.
pub open spec fn spec_mac_text(mac: Seq<char>) -> Seq<char> {
    "MAC: "@ + if mac.len() == 0 {
        "N/A"@
    } else {
        mac
    }
}

/// The MAC line of the tray menu for the address `mac` (empty when unknown).
pub fn mac_text(mac: &str) -> (r: String)
    ensures
        r@ == spec_mac_text(mac@),
{
    let mut out: Vec<char> = Vec::new();
    push_str_chars(&mut out, "MAC: ");
    let m = chars_of(mac);
    if m.len() == 0 {
        push_str_chars(&mut out, "N/A");
    } else {
        push_str_chars(&mut out, mac);
    }
    string_of(&out)
}

/// The LEDs that the tray menu switches.
#[derive(Clone, Copy, Debug, PartialEq, Eq, Structural)]
pub enum LedType {
    Red,
    Green,
    Blue,
    Consumer,
    Home,
}

/// The position of an LED's (opcode, brightness) pair in an LED report:
/// red, green, blue, HOME, consumer area.
pub open spec fn led_slot(led: LedType) -> int {
    match led {
        LedType::Red => 0,
        LedType::Green => 1,
        LedType::Blue => 2,
        LedType::Home => 3,
        LedType::Consumer => 4,
    }
}

/// The LED pairs that switch only `led`: on at full brightness, or off.
pub open spec fn single_led_zones(led: LedType, on: bool) -> Seq<(u8, u8)> {
    Seq::new(
        5,
        |k: int|
            if k == led_slot(led) {
                if on {
                    (LED_SET, 0xFFu8)
                } else {
                    (LED_OFF, 0u8)
                }
            } else {
                (LED_KEEP, 0u8)
            },
    )
}

/// The LED report that switches `led` on (full brightness) or off, leaving
/// the other LEDs alone.
pub fn led_command(led: LedType, on: bool) -> (r: [u8; 13])
    ensures
        r@ == spec_led_report(single_led_zones(led, on)),
{
    let pair = if on { (LED_SET, 0xFFu8) } else { (LED_OFF, 0u8) };
    let keep = (LED_KEEP, 0u8);
    let zones = match led {
        LedType::Red => [pair, keep, keep, keep, keep],
        LedType::Green => [keep, pair, keep, keep, keep],
        LedType::Blue => [keep, keep, pair, keep, keep],
        LedType::Home => [keep, keep, keep, pair, keep],
        LedType::Consumer => [keep, keep, keep, keep, pair],
    };
    assert(zones@ =~= single_led_zones(led, on));
    led_report(zones)
}

/// What a tray menu entry does.
#[derive(Clone, Copy, Debug, PartialEq, Eq, Structural)]
pub enum MenuAction {
    /// Quit the program.
    Exit,
    /// Switch an LED on or off.
    Led(LedType, bool),
    /// Switch the joystick deadzone on or off.
    ToggleDeadzone,
    /// Nothing (a status line or an unknown entry).
    Ignore,
}

/// The action of the menu entry with id `id`.
pub open spec fn spec_menu_action(id: Seq<char>) -> MenuAction {
    if id == "exit"@ {
        MenuAction::Exit
    } else if id == "red_on"@ {
        MenuAction::Led(LedType::Red, true)
    } else if id == "red_off"@ {
        MenuAction::Led(LedType::Red, false)
    } else if id == "green_on"@ {
        MenuAction::Led(LedType::Green, true)
    } else if id == "green_off"@ {
        MenuAction::Led(LedType::Green, false)
    } else if id == "blue_on"@ {
        MenuAction::Led(LedType::Blue, true)
    } else if id == "blue_off"@ {
        MenuAction::Led(LedType::Blue, false)
    } else if id == "consumer_on"@ {
        MenuAction::Led(LedType::Consumer, true)
    } else if id == "consumer_off"@ {
        MenuAction::Led(LedType::Consumer, false)
    } else if id == "home_on"@ {
        MenuAction::Led(LedType::Home, true)
    } else if id == "home_off"@ {
        MenuAction::Led(LedType::Home, false)
    } else if id == "deadzone_toggle"@ {
        MenuAction::ToggleDeadzone
    } else {
        MenuAction::Ignore
    }
}

/// The name of an LED in the ids of the tray menu entries.
pub open spec fn led_id_name(led: LedType) -> Seq<char> {
    match led {
        LedType::Red => "red"@,
        LedType::Green => "green"@,
        LedType::Blue => "blue"@,
        LedType::Consumer => "consumer"@,
        LedType::Home => "home"@,
    }
}

/// The id suffix that switches an LED on (`_on`) or off (`_off`).
pub open spec fn on_suffix(on: bool) -> Seq<char> {
    if on {
        "_on"@
    } else {
        "_off"@
    }
}

proof fn lemma_menu_id_red_on()
    ensures
        spec_menu_action("red_on"@) == MenuAction::Led(LedType::Red, true),
{
    reveal_strlit("exit");
    reveal_strlit("red_on");
    assert("exit"@.len() == 4);
    assert("red_on"@.len() == 6);
    assert("red_on"@ != "exit"@);
}

proof fn lemma_menu_id_red_off()
    ensures
        spec_menu_action("red_off"@) == MenuAction::Led(LedType::Red, false),
{
    reveal_strlit("exit");
    reveal_strlit("red_on");
    reveal_strlit("red_off");
    assert("exit"@.len() == 4);
    assert("red_on"@.len() == 6);
    assert("red_off"@.len() == 7);
    assert("red_off"@ != "exit"@);
    assert("red_off"@ != "red_on"@);
}

proof fn lemma_menu_id_green_on()
    ensures
        spec_menu_action("green_on"@) == MenuAction::Led(LedType::Green, true),
{
    reveal_strlit("exit");
    reveal_strlit("red_on");
    reveal_strlit("red_off");
    reveal_strlit("green_on");
    assert("exit"@.len() == 4);
    assert("red_on"@.len() == 6);
    assert("red_off"@.len() == 7);
    assert("green_on"@.len() == 8);
    assert("green_on"@ != "exit"@);
    assert("green_on"@ != "red_on"@);
    assert("green_on"@ != "red_off"@);
}

proof fn lemma_menu_id_green_off()
    ensures
        spec_menu_action("green_off"@) == MenuAction::Led(LedType::Green, false),
{
    reveal_strlit("exit");
    reveal_strlit("red_on");
    reveal_strlit("red_off");
    reveal_strlit("green_on");
    reveal_strlit("green_off");
    assert("exit"@.len() == 4);
    assert("red_on"@.len() == 6);
    assert("red_off"@.len() == 7);
    assert("green_on"@.len() == 8);
    assert("green_off"@.len() == 9);
    assert("green_off"@ != "exit"@);
    assert("green_off"@ != "red_on"@);
    assert("green_off"@ != "red_off"@);
    assert("green_off"@ != "green_on"@);
}

proof fn lemma_menu_id_blue_on()
    ensures
        spec_menu_action("blue_on"@) == MenuAction::Led(LedType::Blue, true),
{
    reveal_strlit("exit");
    reveal_strlit("red_on");
    reveal_strlit("red_off");
    reveal_strlit("green_on");
    reveal_strlit("green_off");
    reveal_strlit("blue_on");
    assert("exit"@.len() == 4);
    assert("red_on"@.len() == 6);
    assert("red_off"@.len() == 7);
    assert("green_on"@.len() == 8);
    assert("green_off"@.len() == 9);
    assert("blue_on"@.len() == 7);
    assert("blue_on"@ != "exit"@);
    assert("blue_on"@ != "red_on"@);
    assert("blue_on"@[0] != "red_off"@[0]);
    assert("blue_on"@ != "red_off"@);
    assert("blue_on"@ != "green_on"@);
    assert("blue_on"@ != "green_off"@);
}

proof fn lemma_menu_id_blue_off()
    ensures
        spec_menu_action("blue_off"@) == MenuAction::Led(LedType::Blue, false),
{
    reveal_strlit("exit");
    reveal_strlit("red_on");
    reveal_strlit("red_off");
    reveal_strlit("green_on");
    reveal_strlit("green_off");
    reveal_strlit("blue_on");
    reveal_strlit("blue_off");
    assert("exit"@.len() == 4);
    assert("red_on"@.len() == 6);
    assert("red_off"@.len() == 7);
    assert("green_on"@.len() == 8);
    assert("green_off"@.len() == 9);
    assert("blue_on"@.len() == 7);
    assert("blue_off"@.len() == 8);
    assert("blue_off"@ != "exit"@);
    assert("blue_off"@ != "red_on"@);
    assert("blue_off"@ != "red_off"@);
    assert("blue_off"@[0] != "green_on"@[0]);
    assert("blue_off"@ != "green_on"@);
    assert("blue_off"@ != "green_off"@);
    assert("blue_off"@ != "blue_on"@);
}

proof fn lemma_menu_id_consumer_on()
    ensures
        spec_menu_action("consumer_on"@) == MenuAction::Led(LedType::Consumer, true),
{
    reveal_strlit("exit");
    reveal_strlit("red_on");
    reveal_strlit("red_off");
    reveal_strlit("green_on");
    reveal_strlit("green_off");
    reveal_strlit("blue_on");
    reveal_strlit("blue_off");
    reveal_strlit("consumer_on");
    assert("exit"@.len() == 4);
    assert("red_on"@.len() == 6);
    assert("red_off"@.len() == 7);
    assert("green_on"@.len() == 8);
    assert("green_off"@.len() == 9);
    assert("blue_on"@.len() == 7);
    assert("blue_off"@.len() == 8);
    assert("consumer_on"@.len() == 11);
    assert("consumer_on"@ != "exit"@);
    assert("consumer_on"@ != "red_on"@);
    assert("consumer_on"@ != "red_off"@);
    assert("consumer_on"@ != "green_on"@);
    assert("consumer_on"@ != "green_off"@);
    assert("consumer_on"@ != "blue_on"@);
    assert("consumer_on"@ != "blue_off"@);
}

proof fn lemma_menu_id_consumer_off()
    ensures
        spec_menu_action("consumer_off"@) == MenuAction::Led(LedType::Consumer, false),
{
    reveal_strlit("exit");
    reveal_strlit("red_on");
    reveal_strlit("red_off");
    reveal_strlit("green_on");
    reveal_strlit("green_off");
    reveal_strlit("blue_on");
    reveal_strlit("blue_off");
    reveal_strlit("consumer_on");
    reveal_strlit("consumer_off");
    assert("exit"@.len() == 4);
    assert("red_on"@.len() == 6);
    assert("red_off"@.len() == 7);
    assert("green_on"@.len() == 8);
    assert("green_off"@.len() == 9);
    assert("blue_on"@.len() == 7);
    assert("blue_off"@.len() == 8);
    assert("consumer_on"@.len() == 11);
    assert("consumer_off"@.len() == 12);
    assert("consumer_off"@ != "exit"@);
    assert("consumer_off"@ != "red_on"@);
    assert("consumer_off"@ != "red_off"@);
    assert("consumer_off"@ != "green_on"@);
    assert("consumer_off"@ != "green_off"@);
    assert("consumer_off"@ != "blue_on"@);
    assert("consumer_off"@ != "blue_off"@);
    assert("consumer_off"@ != "consumer_on"@);
}

proof fn lemma_menu_id_home_on()
    ensures
        spec_menu_action("home_on"@) == MenuAction::Led(LedType::Home, true),
{
    reveal_strlit("exit");
    reveal_strlit("red_on");
    reveal_strlit("red_off");
    reveal_strlit("green_on");
    reveal_strlit("green_off");
    reveal_strlit("blue_on");
    reveal_strlit("blue_off");
    reveal_strlit("consumer_on");
    reveal_strlit("consumer_off");
    reveal_strlit("home_on");
    assert("exit"@.len() == 4);
    assert("red_on"@.len() == 6);
    assert("red_off"@.len() == 7);
    assert("green_on"@.len() == 8);
    assert("green_off"@.len() == 9);
    assert("blue_on"@.len() == 7);
    assert("blue_off"@.len() == 8);
    assert("consumer_on"@.len() == 11);
    assert("consumer_off"@.len() == 12);
    assert("home_on"@.len() == 7);
    assert("home_on"@ != "exit"@);
    assert("home_on"@ != "red_on"@);
    assert("home_on"@[0] != "red_off"@[0]);
    assert("home_on"@ != "red_off"@);
    assert("home_on"@ != "green_on"@);
    assert("home_on"@ != "green_off"@);
    assert("home_on"@[0] != "blue_on"@[0]);
    assert("home_on"@ != "blue_on"@);
    assert("home_on"@ != "blue_off"@);
    assert("home_on"@ != "consumer_on"@);
    assert("home_on"@ != "consumer_off"@);
}

proof fn lemma_menu_id_home_off()
    ensures
        spec_menu_action("home_off"@) == MenuAction::Led(LedType::Home, false),
{
    reveal_strlit("exit");
    reveal_strlit("red_on");
    reveal_strlit("red_off");
    reveal_strlit("green_on");
    reveal_strlit("green_off");
    reveal_strlit("blue_on");
    reveal_strlit("blue_off");
    reveal_strlit("consumer_on");
    reveal_strlit("consumer_off");
    reveal_strlit("home_on");
    reveal_strlit("home_off");
    assert("exit"@.len() == 4);
    assert("red_on"@.len() == 6);
    assert("red_off"@.len() == 7);
    assert("green_on"@.len() == 8);
    assert("green_off"@.len() == 9);
    assert("blue_on"@.len() == 7);
    assert("blue_off"@.len() == 8);
    assert("consumer_on"@.len() == 11);
    assert("consumer_off"@.len() == 12);
    assert("home_on"@.len() == 7);
    assert("home_off"@.len() == 8);
    assert("home_off"@ != "exit"@);
    assert("home_off"@ != "red_on"@);
    assert("home_off"@ != "red_off"@);
    assert("home_off"@[0] != "green_on"@[0]);
    assert("home_off"@ != "green_on"@);
    assert("home_off"@ != "green_off"@);
    assert("home_off"@ != "blue_on"@);
    assert("home_off"@[0] != "blue_off"@[0]);
    assert("home_off"@ != "blue_off"@);
    assert("home_off"@ != "consumer_on"@);
    assert("home_off"@ != "consumer_off"@);
    assert("home_off"@ != "home_on"@);
}

/// Law: the menu entry `<led>_on` switches that LED on and `<led>_off`
/// switches it off, for each of the five LEDs.
pub proof fn lemma_led_menu_ids(led: LedType, on: bool)
    ensures
        spec_menu_action(led_id_name(led) + on_suffix(on)) == MenuAction::Led(led, on),
{
    reveal_strlit("red");
    reveal_strlit("green");
    reveal_strlit("blue");
    reveal_strlit("consumer");
    reveal_strlit("home");
    reveal_strlit("_on");
    reveal_strlit("_off");
    reveal_strlit("red_on");
    reveal_strlit("red_off");
    reveal_strlit("green_on");
    reveal_strlit("green_off");
    reveal_strlit("blue_on");
    reveal_strlit("blue_off");
    reveal_strlit("consumer_on");
    reveal_strlit("consumer_off");
    reveal_strlit("home_on");
    reveal_strlit("home_off");
    let id = led_id_name(led) + on_suffix(on);
    match led {
        LedType::Red => {
            if on {
                assert(id =~= "red_on"@);
                lemma_menu_id_red_on();
            } else {
                assert(id =~= "red_off"@);
                lemma_menu_id_red_off();
            }
        },
        LedType::Green => {
            if on {
                assert(id =~= "green_on"@);
                lemma_menu_id_green_on();
            } else {
                assert(id =~= "green_off"@);
                lemma_menu_id_green_off();
            }
        },
        LedType::Blue => {
            if on {
                assert(id =~= "blue_on"@);
                lemma_menu_id_blue_on();
            } else {
                assert(id =~= "blue_off"@);
                lemma_menu_id_blue_off();
            }
        },
        LedType::Consumer => {
            if on {
                assert(id =~= "consumer_on"@);
                lemma_menu_id_consumer_on();
            } else {
                assert(id =~= "consumer_off"@);
                lemma_menu_id_consumer_off();
            }
        },
        LedType::Home => {
            if on {
                assert(id =~= "home_on"@);
                lemma_menu_id_home_on();
            } else {
                assert(id =~= "home_off"@);
                lemma_menu_id_home_off();
            }
        },
    }
}

/// Law: an entry that switches an LED has the id `<led>_on` when it switches
/// it on and `<led>_off` when it switches it off.
pub proof fn lemma_led_menu_action_id(id: Seq<char>)
    ensures
        spec_menu_action(id) matches MenuAction::Led(led, on) ==> id == led_id_name(led) + on_suffix(on),
{
    reveal_strlit("red");
    reveal_strlit("green");
    reveal_strlit("blue");
    reveal_strlit("consumer");
    reveal_strlit("home");
    reveal_strlit("_on");
    reveal_strlit("_off");
    reveal_strlit("exit");
    reveal_strlit("red_on");
    reveal_strlit("red_off");
    reveal_strlit("green_on");
    reveal_strlit("green_off");
    reveal_strlit("blue_on");
    reveal_strlit("blue_off");
    reveal_strlit("consumer_on");
    reveal_strlit("consumer_off");
    reveal_strlit("home_on");
    reveal_strlit("home_off");
    reveal_strlit("deadzone_toggle");
    match spec_menu_action(id) {
        MenuAction::Led(led, on) => {
            assert(led_id_name(led) + on_suffix(on) =~= id);
        },
        _ => {},
    }
}

fn is(c: &Vec<char>, s: &str) -> (r: bool)
    ensures
        r == (c@ == s@),
{
    let t = chars_of(s);
    chars_eq(c, &t)
}

/// Decodes the id of a clicked tray menu entry.
pub fn menu_action(id: &str) -> (r: MenuAction)
    ensures
        r == spec_menu_action(id@),
        r matches MenuAction::Led(led, on) ==> id@ == led_id_name(led) + on_suffix(on),
        forall|led: LedType, on: bool|
            id@ == #[trigger] (led_id_name(led) + on_suffix(on)) ==> r == MenuAction::Led(led, on),
{
    proof {
        lemma_led_menu_action_id(id@);
        assert forall|led: LedType, on: bool|
            id@ == #[trigger] (led_id_name(led) + on_suffix(on)) implies spec_menu_action(id@)
                == MenuAction::Led(led, on) by {
            lemma_led_menu_ids(led, on);
        }
    }
    let c = chars_of(id);
    if is(&c, "exit") {
        MenuAction::Exit
    } else if is(&c, "red_on") {
        MenuAction::Led(LedType::Red, true)
    } else if is(&c, "red_off") {
        MenuAction::Led(LedType::Red, false)
    } else if is(&c, "green_on") {
        MenuAction::Led(LedType::Green, true)
    } else if is(&c, "green_off") {
        MenuAction::Led(LedType::Green, false)
    } else if is(&c, "blue_on") {
        MenuAction::Led(LedType::Blue, true)
    } else if is(&c, "blue_off") {
        MenuAction::Led(LedType::Blue, false)
    } else if is(&c, "consumer_on") {
        MenuAction::Led(LedType::Consumer, true)
    } else if is(&c, "consumer_off") {
        MenuAction::Led(LedType::Consumer, false)
    } else if is(&c, "home_on") {
        MenuAction::Led(LedType::Home, true)
    } else if is(&c, "home_off") {
        MenuAction::Led(LedType::Home, false)
    } else if is(&c, "deadzone_toggle") {
        MenuAction::ToggleDeadzone
    } else {
        MenuAction::Ignore
    }
}

/// An RGBA image, rows top to bottom.
pub struct IconRgba {
    pub rgba: Vec<u8>,
    pub width: u32,
    pub height: u32,
}

/// The plain values of an image.
pub open spec fn icon_view(i: IconRgba) -> (Seq<u8>, u32, u32) {
    (i.rgba@, i.width, i.height)
}

/// The plain values of an optional image.
pub open spec fn opt_icon_view(i: Option<IconRgba>) -> Option<(Seq<u8>, u32, u32)> {
    match i {
        Some(x) => Some(icon_view(x)),
        None => None,
    }
}

/// The colour of the fallback icon, as R, G, B, A.
pub open spec fn fallback_pixel_byte(k: int) -> u8 {
    if k == 0 {
        0x4A
    } else if k == 1 {
        0x96
    } else if k == 2 {
        0x2A
    } else {
        0xFF
    }
}

/// The fallback tray icon: 32 x 32 pixels of one opaque green.
pub open spec fn fallback_icon_view() -> (Seq<u8>, u32, u32) {
    (Seq::new(32 * 32 * 4, |i: int| fallback_pixel_byte(i % 4)), 32u32, 32u32)
}

/// The icon used when the bundled one cannot be decoded.
pub fn fallback_icon() -> (r: IconRgba)
    ensures
        icon_view(r) == fallback_icon_view(),
{
    let mut data: Vec<u8> = Vec::new();
    let mut i: usize = 0;
    while i < 32 * 32
        invariant
            i <= 32 * 32,
            data@.len() == 4 * i,
            forall|k: int| 0 <= k < data@.len() ==> #[trigger] data@[k] == fallback_pixel_byte(k % 4),
        decreases 32 * 32 - i,
    {
        data.push(0x4A);
        data.push(0x96);
        data.push(0x2A);
        data.push(0xFF);
        i = i + 1;
    }
    assert(data@ =~= fallback_icon_view().0);
    IconRgba { rgba: data, width: 32, height: 32 }
}

/// The image of the first entry of an icon file that decodes, or the
/// fallback icon when none does.
pub open spec fn first_image(images: Seq<Option<(Seq<u8>, u32, u32)>>) -> (Seq<u8>, u32, u32)
    decreases images.len(),
{
    if images.len() == 0 {
        fallback_icon_view()
    } else {
        match images[0] {
            Some(img) => img,
            None => first_image(images.drop_first()),
        }
    }
}

/// The image of one icon entry, as `IconDirEntry::decode` gives it.
pub type DecodedImage = Option<(Seq<u8>, u32, u32)>;

/// The little-endian u32 at `d[k..k + 4]`.
pub open spec fn le32_at(d: Seq<u8>, k: int) -> int {
    d[k] as int + 256 * d[k + 1] as int + 65536 * d[k + 2] as int + 16777216 * d[k + 3] as int
}

/// The little-endian i32 at `d[k..k + 4]`.
pub open spec fn i32_at(d: Seq<u8>, k: int) -> int {
    let v = le32_at(d, k);
    if v >= 0x8000_0000 {
        v - 0x1_0000_0000
    } else {
        v
    }
}

/// Whether the entry data `d` is a PNG image (it starts with `89 'P' 'N' 'G'`).
pub open spec fn is_png_data(d: Seq<u8>) -> bool {
    d.len() >= 4 && d[0] == 0x89 && d[1] == 0x50 && d[2] == 0x4E && d[3] == 0x47
}

/// Whether `IconDirEntry::decode` is run on the entry data `d`: a PNG image,
/// or a BMP image whose header either is rejected before any pixel arithmetic
/// (too short, header size not 40, width under 1, stored height odd or under
/// 2) or gives a width and height for which the BMP decoder's 32-bit sizes
/// (4 x width x height, 32 x width + 7) do not overflow and whose pixels can
/// fit in `d` (at least two bits each, colour and mask). On BMP data whose
/// sizes overflow the decoder indexes out of bounds; on data too short for
/// its pixels it fails, after allocating the whole pixel buffer.
pub open spec fn decodable_entry(d: Seq<u8>) -> bool {
    ||| is_png_data(d)
    ||| d.len() < 12
    ||| le32_at(d, 0) != 40
    ||| ({
        let w = i32_at(d, 4);
        let h = i32_at(d, 8);
        ||| w < 1
        ||| h % 2 != 0
        ||| h / 2 < 1
        ||| (4 * w * (h / 2) <= 0xFFFF_FFFF && 32 * w + 7 <= 0xFFFF_FFFF && w * (h / 2) <= 4 * d.len())
    })
}

/// The images that may be taken from the entries `es` (data, decoded image):
/// an entry on which decoding cannot be run counts as one that does not decode.
pub open spec fn usable_images(es: Seq<(Seq<u8>, DecodedImage)>) -> Seq<DecodedImage> {
    Seq::new(es.len(), |k: int| if decodable_entry(es[k].0) { es[k].1 } else { None })
}

#[verifier::external_type_specification]
#[verifier::external_body]
pub struct ExIconDir(ico::IconDir);

/// The entries of an icon directory (`IconDir::entries`), each as its raw data
/// (`IconDirEntry::data`) and as what `IconDirEntry::decode` gives for it: its
/// RGBA data, width and height, or `None` when it fails. The second part is
/// only ever read for entries that satisfy `decodable_entry`.
pub uninterp spec fn icon_dir_entries(dir: ico::IconDir) -> Seq<(Seq<u8>, DecodedImage)>;

/// What `ico::IconDir::read` makes of the file `bytes`: `None` when it fails,
/// else the entries of the directory it returns, as in `icon_dir_entries`.
pub uninterp spec fn ico_file_entries(bytes: Seq<u8>) -> Option<Seq<(Seq<u8>, DecodedImage)>>;

/// Reads an ICO file (`ico::IconDir::read`); `None` when it fails. The
/// contract names what the bytes read to and claims nothing more. The reader
/// allocates each entry's data at the size its directory entry gives (up to
/// 4 GiB) before reading it; running out of memory there is not covered.
#[verifier::external_body]
fn read_icon_dir(bytes: &[u8]) -> (r: Option<ico::IconDir>)
    ensures
        r is None <==> ico_file_entries(bytes@) is None,
        r matches Some(d) ==> icon_dir_entries(d) == ico_file_entries(bytes@)->Some_0,
{
    match ico::IconDir::read(std::io::Cursor::new(bytes)) {
        Ok(dir) => Some(dir),
        Err(_) => None,
    }
}

/// The number of entries of an icon directory (`IconDir::entries`).
#[verifier::external_body]
fn icon_dir_len(dir: &ico::IconDir) -> (n: usize)
    ensures
        n == icon_dir_entries(*dir).len(),
{
    dir.entries().len()
}

/// The raw data of entry `i` of an icon directory (`IconDirEntry::data`).
#[verifier::external_body]
fn icon_entry_data(dir: &ico::IconDir, i: usize) -> (r: Vec<u8>)
    requires
        i < icon_dir_entries(*dir).len(),
    ensures
        r@ == icon_dir_entries(*dir)[i as int].0,
{
    dir.entries()[i].data().to_vec()
}

/// Decodes entry `i` of an icon directory (`IconDirEntry::decode`), giving its
/// RGBA data (`rgba_data`), width and height, or `None` when it fails. It is
/// run only on data that satisfies `decodable_entry`: on other BMP data the
/// decoder's 32-bit size arithmetic wraps and it indexes out of bounds. A PNG
/// entry's pixel buffer is allocated at the size its header gives, which the
/// `png` reader bounds only by the width of one row; running out of memory
/// there is not covered.
#[verifier::external_body]
fn decode_icon_entry(dir: &ico::IconDir, i: usize) -> (r: Option<IconRgba>)
    requires
        i < icon_dir_entries(*dir).len(),
        decodable_entry(icon_dir_entries(*dir)[i as int].0),
    ensures
        opt_icon_view(r) == icon_dir_entries(*dir)[i as int].1,
{
    match dir.entries()[i].decode() {
        Ok(img) => Some(IconRgba { rgba: img.rgba_data().to_vec(), width: img.width(), height: img.height() }),
        Err(_) => None,
    }
}

/// Reads the little-endian u32 at `d[k..k + 4]`.
fn read_le32(d: &[u8], k: usize) -> (r: u64)
    requires
        k + 4 <= d@.len(),
    ensures
        r == le32_at(d@, k as int),
{
    d[k] as u64 + 256 * (d[k + 1] as u64) + 65536 * (d[k + 2] as u64) + 16777216 * (d[k + 3] as u64)
}

/// Whether decoding can be run on the entry data `d` (see `decodable_entry`).
pub fn entry_is_decodable(d: &[u8]) -> (r: bool)
    ensures
        r == decodable_entry(d@),
{
    if d.len() >= 4 && d[0] == 0x89 && d[1] == 0x50 && d[2] == 0x4E && d[3] == 0x47 {
        return true;
    }
    if d.len() < 12 {
        return true;
    }
    if read_le32(d, 0) != 40 {
        return true;
    }
    let wu = read_le32(d, 4);
    let hu = read_le32(d, 8);
    let w: i64 = if wu >= 0x8000_0000 { wu as i64 - 0x1_0000_0000 } else { wu as i64 };
    let h: i64 = if hu >= 0x8000_0000 { hu as i64 - 0x1_0000_0000 } else { hu as i64 };
    assert(w == i32_at(d@, 4) && h == i32_at(d@, 8));
    if w < 1 {
        return true;
    }
    if h % 2 != 0 {
        return true;
    }
    let h2: i64 = h / 2;
    assert(h2 == h / 2);
    if h2 < 1 {
        return true;
    }
    let wb = w as u128;
    let hb = h2 as u128;
    assert(wb * hb <= 0x8000_0000 * 0x8000_0000) by (nonlinear_arith)
        requires
            wb <= 0x8000_0000,
            hb <= 0x8000_0000,
    ;
    let prod = wb * hb;
    assert(4 * prod == 4 * w * h2) by (nonlinear_arith)
        requires
            prod == wb * hb,
            wb == w,
            hb == h2,
    ;
    assert(prod == w * h2);
    4 * prod <= 0xFFFF_FFFF && 32 * wb + 7 <= 0xFFFF_FFFF && prod <= 4 * (d.len() as u128)
}

/// The image of the first entry of `dir` that decodes (entries on which
/// decoding cannot be run are skipped), or the fallback icon.
pub fn select_icon(dir: &ico::IconDir) -> (r: IconRgba)
    ensures
        icon_view(r) == first_image(usable_images(icon_dir_entries(*dir))),
{
    let ghost images = usable_images(icon_dir_entries(*dir));
    let n = icon_dir_len(dir);
    let mut i: usize = 0;
    assert(images.skip(0) =~= images);
    while i < n
        invariant
            i <= n,
            n == images.len(),
            n == icon_dir_entries(*dir).len(),
            images == usable_images(icon_dir_entries(*dir)),
            first_image(images.skip(i as int)) == first_image(images),
        decreases n - i,
    {
        assert(images.skip(i as int).drop_first() =~= images.skip(i + 1));
        assert(images.skip(i as int)[0] == images[i as int]);
        let data = icon_entry_data(dir, i);
        if entry_is_decodable(&data) {
            if let Some(img) = decode_icon_entry(dir, i) {
                return img;
            }
        }
        i = i + 1;
    }
    assert(images.skip(n as int) =~= Seq::<DecodedImage>::empty());
    fallback_icon()
}

/// The tray icon image of the ICO file `bytes`: its first entry that decodes,
/// or the fallback icon when the file does not read or no entry decodes.
pub fn load_icon_rgba(bytes: &[u8]) -> (r: IconRgba)
    ensures
        icon_view(r) == match ico_file_entries(bytes@) {
            Some(es) => first_image(usable_images(es)),
            None => fallback_icon_view(),
        },
{
    match read_icon_dir(bytes) {
        Some(dir) => select_icon(&dir),
        None => fallback_icon(),
    }
}

} // verus!
