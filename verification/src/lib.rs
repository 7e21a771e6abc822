//! Verified core of the OBOX Bluetooth gamepad driver: HID report decoding,
//! Xbox 360 button mapping, output report framing and HidHide CLI parsing.

pub mod buttons;
pub mod text;
pub mod hidhide;
pub mod gamepad;
pub mod output;
pub mod debug;
pub mod tray;
pub mod cli;
