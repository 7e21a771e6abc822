//! The Xbox 360 button bits and how the OBOX controller's inputs map onto them.

use vstd::prelude::*;

verus! {

/// Xbox 360 D-pad up.
pub const XB_UP: u16 = 0x0001;
/// Xbox 360 D-pad down.
pub const XB_DOWN: u16 = 0x0002;
/// Xbox 360 D-pad left.
pub const XB_LEFT: u16 = 0x0004;
/// Xbox 360 D-pad right.
pub const XB_RIGHT: u16 = 0x0008;
/// Xbox 360 Start.
pub const XB_START: u16 = 0x0010;
/// Xbox 360 Back.
pub const XB_BACK: u16 = 0x0020;
/// Xbox 360 left stick click.
pub const XB_LTHUMB: u16 = 0x0040;
/// Xbox 360 right stick click.
pub const XB_RTHUMB: u16 = 0x0080;
/// Xbox 360 left bumper.
pub const XB_LB: u16 = 0x0100;
/// Xbox 360 right bumper.
pub const XB_RB: u16 = 0x0200;
/// Xbox 360 Guide.
pub const XB_GUIDE: u16 = 0x0400;
/// Xbox 360 A.
pub const XB_A: u16 = 0x1000;
/// Xbox 360 B.
pub const XB_B: u16 = 0x2000;
/// Xbox 360 X.
pub const XB_X: u16 = 0x4000;
/// Xbox 360 Y.
pub const XB_Y: u16 = 0x8000;

/// Consumer usage of the Back key (AC Back).
pub const USAGE_BACK: u16 = 0x224;
/// Consumer usage of the Menu key.
pub const USAGE_MENU: u16 = 0x040;
/// Consumer usage of the Home key (AC Home).
pub const USAGE_HOME: u16 = 0x223;

/// Trigger values strictly below this are treated as released.
pub const TRIGGER_THRESHOLD: u16 = 100;

/// The Xbox 360 button of physical key `bit_num` (key number = bit position + 1).
pub open spec fn spec_button_bit(bit_num: u8) -> Option<u16> {
    match bit_num {
        1 => Some(XB_A),
        2 => Some(XB_B),
        4 => Some(XB_X),
        5 => Some(XB_Y),
        7 => Some(XB_LB),
        8 => Some(XB_RB),
        14 => Some(XB_LTHUMB),
        15 => Some(XB_RTHUMB),
        _ => None,
    }
}

/// Maps a physical key number of the gamepad collection to its Xbox 360 button.
pub fn button_bit(bit_num: u8) -> (r: Option<u16>)
    ensures
        r == spec_button_bit(bit_num),
{
    match bit_num {
        1 => Some(XB_A),
        2 => Some(XB_B),
        4 => Some(XB_X),
        5 => Some(XB_Y),
        7 => Some(XB_LB),
        8 => Some(XB_RB),
        14 => Some(XB_LTHUMB),
        15 => Some(XB_RTHUMB),
        _ => None,
    }
}

/// The Xbox 360 button of a consumer usage code.
pub open spec fn spec_consumer_usage_to_xbox(usage: u16) -> Option<u16> {
    if usage == USAGE_BACK {
        Some(XB_BACK)
    } else if usage == USAGE_MENU {
        Some(XB_START)
    } else if usage == USAGE_HOME {
        Some(XB_GUIDE)
    } else {
        None
    }
}

/// Maps a consumer usage (Back, Menu, Home) to its Xbox 360 button.
pub fn consumer_usage_to_xbox(usage: u16) -> (r: Option<u16>)
    ensures
        r == spec_consumer_usage_to_xbox(usage),
{
    if usage == USAGE_BACK {
        Some(XB_BACK)
    } else if usage == USAGE_MENU {
        Some(XB_START)
    } else if usage == USAGE_HOME {
        Some(XB_GUIDE)
    } else {
        None
    }
}

/// The D-pad buttons of a hat switch position; a diagonal gives two.
pub open spec fn spec_hat_buttons(hat: u8) -> Seq<u16> {
    match hat {
        0 => seq![XB_UP],
        1 => seq![XB_UP, XB_RIGHT],
        2 => seq![XB_RIGHT],
        3 => seq![XB_DOWN, XB_RIGHT],
        4 => seq![XB_DOWN],
        5 => seq![XB_DOWN, XB_LEFT],
        6 => seq![XB_LEFT],
        7 => seq![XB_UP, XB_LEFT],
        _ => seq![],
    }
}

/// The D-pad buttons of a hat switch position (clockwise from 0 = up; 8 and
/// above = released).
pub fn hat_buttons(hat: u8) -> (r: Vec<u16>)
    ensures
        r@ == spec_hat_buttons(hat),
{
    let r = match hat {
        0 => vec![XB_UP],
        1 => vec![XB_UP, XB_RIGHT],
        2 => vec![XB_RIGHT],
        3 => vec![XB_DOWN, XB_RIGHT],
        4 => vec![XB_DOWN],
        5 => vec![XB_DOWN, XB_LEFT],
        6 => vec![XB_LEFT],
        7 => vec![XB_UP, XB_LEFT],
        _ => vec![],
    };
    assert(r@ =~= spec_hat_buttons(hat));
    r
}

/// The D-pad bits of a hat switch position.
pub open spec fn hat_mask(hat: u8) -> u16 {
    match hat {
        0 => XB_UP,
        1 => XB_UP | XB_RIGHT,
        2 => XB_RIGHT,
        3 => XB_DOWN | XB_RIGHT,
        4 => XB_DOWN,
        5 => XB_DOWN | XB_LEFT,
        6 => XB_LEFT,
        7 => XB_UP | XB_LEFT,
        _ => 0,
    }
}

/// The Xbox 360 buttons that the gamepad button bitmap `b` holds: bit 0 is A,
/// bit 1 B, bit 3 X, bit 4 Y, bit 6 LB, bit 7 RB, bit 13 L3, bit 14 R3; the
/// other bits are unused.
pub open spec fn button_mask(b: u16) -> u16 {
    (if b & 0x0001 != 0 { XB_A } else { 0u16 }) | (if b & 0x0002 != 0 { XB_B } else { 0u16 }) | (
    if b & 0x0008 != 0 { XB_X } else { 0u16 }) | (if b & 0x0010 != 0 { XB_Y } else { 0u16 }) | (
    if b & 0x0040 != 0 { XB_LB } else { 0u16 }) | (if b & 0x0080 != 0 { XB_RB } else { 0u16 }) | (
    if b & 0x2000 != 0 { XB_LTHUMB } else { 0u16 }) | (if b & 0x4000 != 0 { XB_RTHUMB } else { 0u16 })
}

/// The Xbox 360 button bits of a gamepad report: the mapped buttons, plus the
/// D-pad of the hat switch.
pub open spec fn gamepad_xbox_buttons(buttons: u16, hat: u8) -> u16 {
    button_mask(buttons) | hat_mask(hat)
}

/// The contribution of bit `k` of `b` to the button mask.
pub open spec fn bit_term(b: u16, k: u8) -> u16 {
    if (b >> k) & 1u16 != 0 {
        match spec_button_bit((k + 1) as u8) {
            Some(v) => v,
            None => 0u16,
        }
    } else {
        0u16
    }
}

/// The buttons of the bits below `k` of `b`, gathered one bit at a time.
pub open spec fn button_fold(b: u16, k: u8) -> u16
    decreases k,
{
    if k == 0 {
        0u16
    } else {
        button_fold(b, (k - 1) as u8) | bit_term(b, (k - 1) as u8)
    }
}

proof fn lemma_button_fold_is_mask(b: u16)
    ensures
        button_fold(b, 16) == button_mask(b),
{
    reveal_with_fuel(button_fold, 17);
    assert(button_fold(b, 16) == ((((((((((((((((0u16 | (if (b >> 0u8) & 1u16 != 0u16 { 0x1000u16 } else { 0u16 })) | (if (b >> 1u8) & 1u16 != 0u16 { 0x2000u16 } else { 0u16 })) | (if (b >> 2u8) & 1u16 != 0u16 { 0u16 } else { 0u16 })) | (if (b >> 3u8) & 1u16 != 0u16 { 0x4000u16 } else { 0u16 })) | (if (b >> 4u8) & 1u16 != 0u16 { 0x8000u16 } else { 0u16 })) | (if (b >> 5u8) & 1u16 != 0u16 { 0u16 } else { 0u16 })) | (if (b >> 6u8) & 1u16 != 0u16 { 0x0100u16 } else { 0u16 })) | (if (b >> 7u8) & 1u16 != 0u16 { 0x0200u16 } else { 0u16 })) | (if (b >> 8u8) & 1u16 != 0u16 { 0u16 } else { 0u16 })) | (if (b >> 9u8) & 1u16 != 0u16 { 0u16 } else { 0u16 })) | (if (b >> 10u8) & 1u16 != 0u16 { 0u16 } else { 0u16 })) | (if (b >> 11u8) & 1u16 != 0u16 { 0u16 } else { 0u16 })) | (if (b >> 12u8) & 1u16 != 0u16 { 0u16 } else { 0u16 })) | (if (b >> 13u8) & 1u16 != 0u16 { 0x0040u16 } else { 0u16 })) | (if (b >> 14u8) & 1u16 != 0u16 { 0x0080u16 } else { 0u16 })) | (if (b >> 15u8) & 1u16 != 0u16 { 0u16 } else { 0u16 })));
    assert(((((((((((((((((0u16 | (if (b >> 0u8) & 1u16 != 0u16 { 0x1000u16 } else { 0u16 })) | (if (b >> 1u8) & 1u16 != 0u16 { 0x2000u16 } else { 0u16 })) | (if (b >> 2u8) & 1u16 != 0u16 { 0u16 } else { 0u16 })) | (if (b >> 3u8) & 1u16 != 0u16 { 0x4000u16 } else { 0u16 })) | (if (b >> 4u8) & 1u16 != 0u16 { 0x8000u16 } else { 0u16 })) | (if (b >> 5u8) & 1u16 != 0u16 { 0u16 } else { 0u16 })) | (if (b >> 6u8) & 1u16 != 0u16 { 0x0100u16 } else { 0u16 })) | (if (b >> 7u8) & 1u16 != 0u16 { 0x0200u16 } else { 0u16 })) | (if (b >> 8u8) & 1u16 != 0u16 { 0u16 } else { 0u16 })) | (if (b >> 9u8) & 1u16 != 0u16 { 0u16 } else { 0u16 })) | (if (b >> 10u8) & 1u16 != 0u16 { 0u16 } else { 0u16 })) | (if (b >> 11u8) & 1u16 != 0u16 { 0u16 } else { 0u16 })) | (if (b >> 12u8) & 1u16 != 0u16 { 0u16 } else { 0u16 })) | (if (b >> 13u8) & 1u16 != 0u16 { 0x0040u16 } else { 0u16 })) | (if (b >> 14u8) & 1u16 != 0u16 { 0x0080u16 } else { 0u16 })) | (if (b >> 15u8) & 1u16 != 0u16 { 0u16 } else { 0u16 })) == button_mask(b)) by (bit_vector);
}

/// Maps a gamepad button bitmap and hat position to Xbox 360 button bits.
pub fn map_gamepad_buttons(buttons: u16, hat: u8) -> (r: u16)
    ensures
        r == gamepad_xbox_buttons(buttons, hat),
{
    let mut xb_raw: u16 = 0;
    let mut bit: u8 = 0;
    while bit < 16
        invariant
            bit <= 16,
            xb_raw == button_fold(buttons, bit),
        decreases 16 - bit,
    {
        let ghost before = xb_raw;
        proof {
            assert(before | 0u16 == before) by (bit_vector);
        }
        if (buttons >> bit) & 1 != 0 {
            if let Some(btn) = button_bit(bit + 1) {
                xb_raw = xb_raw | btn;
            }
        }
        bit = bit + 1;
    }
    proof {
        lemma_button_fold_is_mask(buttons);
    }
    if hat < 8 {
        let dpad = hat_buttons(hat);
        let ghost base = xb_raw;
        let mut k: usize = 0;
        while k < dpad.len()
            invariant
                k <= dpad@.len(),
                dpad@ == spec_hat_buttons(hat),
                hat < 8,
                base == button_mask(buttons),
                k == 0 ==> xb_raw == base,
                k == 1 ==> xb_raw == base | dpad@[0],
                k == 2 ==> xb_raw == (base | dpad@[0]) | dpad@[1],
            decreases dpad.len() - k,
        {
            xb_raw = xb_raw | dpad[k];
            k = k + 1;
        }
        proof {
            let m = button_mask(buttons);
            assert(m | 0u16 == m) by (bit_vector);
            assert((m | XB_UP) | XB_RIGHT == m | (XB_UP | XB_RIGHT)) by (bit_vector);
            assert((m | XB_DOWN) | XB_RIGHT == m | (XB_DOWN | XB_RIGHT)) by (bit_vector);
            assert((m | XB_DOWN) | XB_LEFT == m | (XB_DOWN | XB_LEFT)) by (bit_vector);
            assert((m | XB_UP) | XB_LEFT == m | (XB_UP | XB_LEFT)) by (bit_vector);
        }
    } else {
        proof {
            let m = button_mask(buttons);
            assert(m | 0u16 == m) by (bit_vector);
        }
    }
    xb_raw
}

/// The 8-bit trigger value of a raw 16-bit trigger reading: its high byte,
/// or 0 under the threshold.
pub open spec fn spec_trigger_to_byte(val: u16) -> u8 {
    if val < TRIGGER_THRESHOLD {
        0
    } else {
        (val / 256) as u8
    }
}

/// Compresses a raw 16-bit trigger reading to the 8-bit Xbox 360 range,
/// treating readings under the threshold as released.
pub fn trigger_to_byte(val: u16) -> (r: u8)
    ensures
        r == spec_trigger_to_byte(val),
{
    if val < TRIGGER_THRESHOLD {
        return 0;
    }
    (val / 256) as u8
}

} // verus!
