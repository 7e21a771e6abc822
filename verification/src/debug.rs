//! The diagnostic modes: readable names for raw inputs, and the commands of
//! the interactive output test menu.

use vstd::prelude::*;
use crate::buttons::{USAGE_BACK, USAGE_HOME, USAGE_MENU};
use crate::gamepad::GamepadReport;
use crate::output::{
    led_all_off, led_blue, led_consumer, led_green, led_home, led_red, led_white, level_op,
    rumble_report, spec_led_report, spec_rumble_report, LED_KEEP, LED_OFF, LED_SET,
};
use crate::text::{
    chars_eq, chars_of, join_strings, join_with, lowercase, push_str_chars, string_of,
    string_views, to_lowercase, trim, trim_chars,
};

verus! {

/// The compass name of a hat switch position.
pub open spec fn spec_hat_direction(hat: u8) -> &'static str {
    match hat {
        0 => "N",
        1 => "NE",
        2 => "E",
        3 => "SE",
        4 => "S",
        5 => "SW",
        6 => "W",
        7 => "NW",
        _ => "?",
    }
}

/// Names a hat switch position (clockwise from 0 = N; `?` for others).
pub fn hat_direction(hat: u8) -> (r: &'static str)
    ensures
        r == spec_hat_direction(hat),
{
    match hat {
        0 => "N",
        1 => "NE",
        2 => "E",
        3 => "SE",
        4 => "S",
        5 => "SW",
        6 => "W",
        7 => "NW",
        _ => "?",
    }
}

/// The name of a consumer usage code.
pub open spec fn spec_consumer_usage_name(usage: u16) -> &'static str {
    if usage == USAGE_BACK {
        "BACK"
    } else if usage == USAGE_MENU {
        "MENU/START"
    } else if usage == USAGE_HOME {
        "HOME/GUIDE"
    } else {
        "unknown"
    }
}

/// Names a consumer usage code.
pub fn consumer_usage_name(usage: u16) -> (r: &'static str)
    ensures
        r == spec_consumer_usage_name(usage),
{
    if usage == USAGE_BACK {
        "BACK"
    } else if usage == USAGE_MENU {
        "MENU/START"
    } else if usage == USAGE_HOME {
        "HOME/GUIDE"
    } else {
        "unknown"
    }
}

/// The label of a hat position in the key debug output: its compass name,
/// or `released` for 8 (centred) and every value above.
pub open spec fn spec_hat_label(hat: u8) -> &'static str {
    if hat < 8 {
        spec_hat_direction(hat)
    } else {
        "released"
    }
}

/// Labels a hat position for the key debug output.
pub fn hat_label(hat: u8) -> (r: &'static str)
    ensures
        r == spec_hat_label(hat),
{
    if hat < 8 {
        hat_direction(hat)
    } else {
        "released"
    }
}

/// The uppercase hexadecimal digits.
pub open spec fn hex_chars() -> Seq<char> {
    seq!['0', '1', '2', '3', '4', '5', '6', '7', '8', '9', 'A', 'B', 'C', 'D', 'E', 'F']
}

/// `u` as four uppercase hexadecimal digits.
pub open spec fn hex4(u: u16) -> Seq<char> {
    seq![
        hex_chars()[(u / 4096) as int],
        hex_chars()[((u / 256) % 16) as int],
        hex_chars()[((u / 16) % 16) as int],
        hex_chars()[(u % 16) as int],
    ]
}

fn hex_digit(d: u16) -> (c: char)
    requires
        d < 16,
    ensures
        c == hex_chars()[d as int],
{
    match d {
        0 => '0',
        1 => '1',
        2 => '2',
        3 => '3',
        4 => '4',
        5 => '5',
        6 => '6',
        7 => '7',
        8 => '8',
        9 => '9',
        10 => 'A',
        11 => 'B',
        12 => 'C',
        13 => 'D',
        14 => 'E',
        _ => 'F',
    }
}

/// One consumer usage as the key debug output shows it: `0x0224(BACK)`.
pub open spec fn usage_entry(u: u16) -> Seq<char> {
    "0x"@ + hex4(u) + "("@ + spec_consumer_usage_name(u)@ + ")"@
}

/// The consumer usages held, as the key debug output shows them: each entry
/// joined by `, `, or `(empty/released)` when none is held.
pub open spec fn spec_consumer_usages_text(usages: Seq<u16>) -> Seq<char> {
    if usages.len() == 0 {
        "(empty/released)"@
    } else {
        join_with(Seq::new(usages.len(), |k: int| usage_entry(usages[k])), ", "@)
    }
}

fn usage_entry_string(u: u16) -> (r: String)
    ensures
        r@ == usage_entry(u),
{
    let mut out: Vec<char> = Vec::new();
    push_str_chars(&mut out, "0x");
    out.push(hex_digit(u / 4096));
    out.push(hex_digit((u / 256) % 16));
    out.push(hex_digit((u / 16) % 16));
    out.push(hex_digit(u % 16));
    push_str_chars(&mut out, "(");
    push_str_chars(&mut out, consumer_usage_name(u));
    push_str_chars(&mut out, ")");
    assert(out@ =~= usage_entry(u));
    string_of(&out)
}

/// Describes the consumer usages held, for the key debug output.
pub fn consumer_usages_text(usages: &Vec<u16>) -> (r: String)
    ensures
        r@ == spec_consumer_usages_text(usages@),
{
    if usages.len() == 0 {
        return string_of(&chars_of("(empty/released)"));
    }
    let mut entries: Vec<String> = Vec::new();
    let mut i: usize = 0;
    while i < usages.len()
        invariant
            i <= usages@.len(),
            entries@.len() == i,
            forall|k: int| 0 <= k < i ==> (#[trigger] entries@[k])@ == usage_entry(usages@[k]),
        decreases usages.len() - i,
    {
        let e = usage_entry_string(usages[i]);
        entries.push(e);
        i = i + 1;
    }
    assert(string_views(entries@) =~= Seq::new(usages@.len(), |k: int| usage_entry(usages@[k])));
    join_strings(&entries, ", ")
}

/// `names` with `name` added when `on`.
pub open spec fn add_if(names: Seq<Seq<char>>, on: bool, name: Seq<char>) -> Seq<Seq<char>> {
    if on {
        names.push(name)
    } else {
        names
    }
}

/// The names of the buttons pressed in the gamepad button bitmap `btns`
/// (bit 0 A, bit 1 B, bit 3 X, bit 4 Y, bit 6 LB, bit 7 RB, bit 13 L3,
/// bit 14 R3), in that order.
pub open spec fn button_name_list(btns: u16) -> Seq<Seq<char>> {
    let n0 = add_if(seq![], btns & 0x0001 != 0, "A"@);
    let n1 = add_if(n0, btns & 0x0002 != 0, "B"@);
    let n2 = add_if(n1, btns & 0x0008 != 0, "X"@);
    let n3 = add_if(n2, btns & 0x0010 != 0, "Y"@);
    let n4 = add_if(n3, btns & 0x0040 != 0, "LB"@);
    let n5 = add_if(n4, btns & 0x0080 != 0, "RB"@);
    let n6 = add_if(n5, btns & 0x2000 != 0, "L3"@);
    add_if(n6, btns & 0x4000 != 0, "R3"@)
}

/// The button names joined by commas, or `(none)`.
pub open spec fn spec_gamepad_button_names(btns: u16) -> Seq<char> {
    let names = button_name_list(btns);
    if names.len() == 0 {
        "(none)"@
    } else {
        join_with(names, ","@)
    }
}

fn push_name_if(names: &mut Vec<String>, on: bool, name: &str)
    ensures
        string_views(final(names)@) == add_if(string_views(old(names)@), on, name@),
{
    if on {
        let ghost prev = string_views(names@);
        let s = string_of(&chars_of(name));
        names.push(s);
        assert(string_views(names@) =~= prev.push(name@));
    }
}

/// Lists the buttons pressed in the gamepad button bitmap `btns` (as the
/// gamepad report carries it), as `A,B,LB`, or `(none)`.
pub fn gamepad_button_names(btns: u16) -> (r: String)
    ensures
        r@ == spec_gamepad_button_names(btns),
{
    let mut names: Vec<String> = Vec::new();
    assert(string_views(names@) =~= Seq::<Seq<char>>::empty());
    push_name_if(&mut names, btns & 0x0001 != 0, "A");
    push_name_if(&mut names, btns & 0x0002 != 0, "B");
    push_name_if(&mut names, btns & 0x0008 != 0, "X");
    push_name_if(&mut names, btns & 0x0010 != 0, "Y");
    push_name_if(&mut names, btns & 0x0040 != 0, "LB");
    push_name_if(&mut names, btns & 0x0080 != 0, "RB");
    push_name_if(&mut names, btns & 0x2000 != 0, "L3");
    push_name_if(&mut names, btns & 0x4000 != 0, "R3");
    if names.len() == 0 {
        string_of(&chars_of("(none)"))
    } else {
        join_strings(&names, ",")
    }
}

/// What a line typed into the output test menu asks for.
#[derive(Clone, Copy, Debug)]
pub enum DebugCommand {
    /// Write this rumble report.
    Rumble([u8; 13]),
    /// Write this LED report.
    Led([u8; 13]),
    /// Leave the menu.
    Exit,
    /// Nothing was typed.
    Empty,
    /// Not a menu command.
    Unknown,
}

/// The report that a menu command writes: a rumble report (`true`) or an LED
/// report (`false`), with its bytes; `None` for the other commands.
pub open spec fn command_output(c: DebugCommand) -> Option<(bool, Seq<u8>)> {
    match c {
        DebugCommand::Rumble(a) => Some((true, a@)),
        DebugCommand::Led(a) => Some((false, a@)),
        _ => None,
    }
}

/// The menu's meaning of the (trimmed, lowercased) command `cmd`.
pub open spec fn spec_command_output(cmd: Seq<char>) -> Option<(bool, Seq<u8>)> {
    if cmd == "1"@ {
        Some((true, spec_rumble_report(0x01, 0xFF, 0, 0, 0)))
    } else if cmd == "2"@ {
        Some((true, spec_rumble_report(0x04, 0, 0, 0xFF, 0)))
    } else if cmd == "3"@ {
        Some((true, spec_rumble_report(0x05, 0xFF, 0, 0xFF, 0)))
    } else if cmd == "4"@ {
        Some((true, spec_rumble_report(0x0A, 0, 0, 0, 0)))
    } else if cmd == "5"@ {
        Some((true, spec_rumble_report(0x01, 0xFF, 4, 0, 0)))
    } else if cmd == "6"@ {
        Some((true, spec_rumble_report(0x04, 0, 0, 0xFF, 4)))
    } else if cmd == "7"@ {
        Some((true, spec_rumble_report(0x05, 0xFF, 4, 0xFF, 4)))
    } else if cmd == "r"@ {
        Some((false, spec_led_report(seq![(LED_SET, 0xFFu8), (LED_OFF, 0u8), (LED_OFF, 0u8), (LED_KEEP, 0u8), (LED_KEEP, 0u8)])))
    } else if cmd == "g"@ {
        Some((false, spec_led_report(seq![(LED_OFF, 0u8), (LED_SET, 0xFFu8), (LED_OFF, 0u8), (LED_KEEP, 0u8), (LED_KEEP, 0u8)])))
    } else if cmd == "b"@ {
        Some((false, spec_led_report(seq![(LED_OFF, 0u8), (LED_OFF, 0u8), (LED_SET, 0xFFu8), (LED_KEEP, 0u8), (LED_KEEP, 0u8)])))
    } else if cmd == "w"@ {
        Some((false, spec_led_report(seq![(LED_SET, 0xFFu8), (LED_SET, 0xFFu8), (LED_SET, 0xFFu8), (LED_KEEP, 0u8), (LED_KEEP, 0u8)])))
    } else if cmd == "h"@ {
        Some((false, spec_led_report(seq![(LED_KEEP, 0u8), (LED_KEEP, 0u8), (LED_KEEP, 0u8), (level_op(0xFF), 0xFFu8), (LED_KEEP, 0u8)])))
    } else if cmd == "c"@ {
        Some((false, spec_led_report(seq![(LED_KEEP, 0u8), (LED_KEEP, 0u8), (LED_KEEP, 0u8), (LED_KEEP, 0u8), (level_op(0xFF), 0xFFu8)])))
    } else if cmd == "o"@ {
        Some((false, spec_led_report(seq![(LED_OFF, 0u8), (LED_OFF, 0u8), (LED_OFF, 0u8), (LED_OFF, 0u8), (LED_OFF, 0u8)])))
    } else {
        None
    }
}

/// Whether `cmd` leaves the menu.
pub open spec fn is_exit_command(cmd: Seq<char>) -> bool {
    cmd == "0"@ || cmd == "exit"@ || cmd == "quit"@ || cmd == "q"@
}

fn is(c: &Vec<char>, s: &str) -> (r: bool)
    ensures
        r == (c@ == s@),
{
    let t = chars_of(s);
    chars_eq(c, &t)
}

/// The menu command named by `cmd`, already trimmed and lowercased.
pub fn debug_command_of(cmd: &str) -> (r: DebugCommand)
    ensures
        command_output(r) == spec_command_output(cmd@),
        (r == DebugCommand::Exit) == (spec_command_output(cmd@) is None && is_exit_command(cmd@)),
        (r == DebugCommand::Empty) == (spec_command_output(cmd@) is None && !is_exit_command(cmd@)
            && cmd@.len() == 0),
        (r == DebugCommand::Unknown) == (spec_command_output(cmd@) is None && !is_exit_command(cmd@)
            && cmd@.len() != 0),
{
    let c = chars_of(cmd);
    if is(&c, "1") {
        DebugCommand::Rumble(rumble_report(0x01, 0xFF, 0, 0, 0))
    } else if is(&c, "2") {
        DebugCommand::Rumble(rumble_report(0x04, 0, 0, 0xFF, 0))
    } else if is(&c, "3") {
        DebugCommand::Rumble(rumble_report(0x05, 0xFF, 0, 0xFF, 0))
    } else if is(&c, "4") {
        DebugCommand::Rumble(rumble_report(0x0A, 0, 0, 0, 0))
    } else if is(&c, "5") {
        DebugCommand::Rumble(rumble_report(0x01, 0xFF, 4, 0, 0))
    } else if is(&c, "6") {
        DebugCommand::Rumble(rumble_report(0x04, 0, 0, 0xFF, 4))
    } else if is(&c, "7") {
        DebugCommand::Rumble(rumble_report(0x05, 0xFF, 4, 0xFF, 4))
    } else if is(&c, "r") {
        DebugCommand::Led(led_red(0xFF))
    } else if is(&c, "g") {
        DebugCommand::Led(led_green(0xFF))
    } else if is(&c, "b") {
        DebugCommand::Led(led_blue(0xFF))
    } else if is(&c, "w") {
        DebugCommand::Led(led_white())
    } else if is(&c, "h") {
        DebugCommand::Led(led_home(0xFF))
    } else if is(&c, "c") {
        DebugCommand::Led(led_consumer(0xFF))
    } else if is(&c, "o") {
        DebugCommand::Led(led_all_off())
    } else if is(&c, "0") || is(&c, "exit") || is(&c, "quit") || is(&c, "q") {
        DebugCommand::Exit
    } else if c.len() == 0 {
        DebugCommand::Empty
    } else {
        DebugCommand::Unknown
    }
}

/// Reads a line typed into the output test menu: trimmed, then lowercased.
pub fn parse_debug_command(line: &str) -> (r: DebugCommand)
    ensures
        ({
            let cmd = lowercase(trim(line@));
            &&& command_output(r) == spec_command_output(cmd)
            &&& (r == DebugCommand::Exit) == (spec_command_output(cmd) is None && is_exit_command(cmd))
            &&& (r == DebugCommand::Empty) == (spec_command_output(cmd) is None && !is_exit_command(cmd)
                && cmd.len() == 0)
            &&& (r == DebugCommand::Unknown) == (spec_command_output(cmd) is None && !is_exit_command(cmd)
                && cmd.len() != 0)
        }),
{
    let c = chars_of(line);
    let t = trim_chars(&c);
    let ts = string_of(&t);
    let cmd = to_lowercase(ts.as_str());
    debug_command_of(cmd.as_str())
}

/// Whether the usage sets `a` and `b` hold the same usages.
pub fn same_usages(a: &Vec<u16>, b: &Vec<u16>) -> (r: bool)
    ensures
        r == (forall|u: u16| a@.contains(u) <==> b@.contains(u)),
{
    let mut i: usize = 0;
    while i < a.len()
        invariant
            i <= a@.len(),
            forall|k: int| 0 <= k < i ==> b@.contains(#[trigger] a@[k]),
        decreases a.len() - i,
    {
        if !crate::gamepad::contains_u16(b, a[i]) {
            assert(a@.contains(a@[i as int]));
            return false;
        }
        i = i + 1;
    }
    let mut j: usize = 0;
    while j < b.len()
        invariant
            j <= b@.len(),
            forall|k: int| 0 <= k < a@.len() ==> b@.contains(#[trigger] a@[k]),
            forall|k: int| 0 <= k < j ==> a@.contains(#[trigger] b@[k]),
        decreases b.len() - j,
    {
        if !crate::gamepad::contains_u16(a, b[j]) {
            assert(b@.contains(b@[j as int]));
            return false;
        }
        j = j + 1;
    }
    proof {
        assert forall|u: u16| a@.contains(u) <==> b@.contains(u) by {
            if a@.contains(u) {
                let k = choose|k: int| 0 <= k < a@.len() && a@[k] == u;
                assert(b@.contains(a@[k]));
            }
            if b@.contains(u) {
                let k = choose|k: int| 0 <= k < b@.len() && b@[k] == u;
                assert(a@.contains(b@[k]));
            }
        }
    }
    true
}


/// Whether the gamepad report `r` differs from the last one shown (`None`
/// before the first).
pub open spec fn spec_report_changed(prev: Option<GamepadReport>, r: GamepadReport) -> bool {
    match prev {
        Some(p) => p != r,
        None => true,
    }
}

/// Whether the key debug mode prints `r`: the first report, and then every
/// report that differs in some field from the last one printed.
pub fn report_changed(prev: Option<GamepadReport>, r: GamepadReport) -> (b: bool)
    ensures
        b == spec_report_changed(prev, r),
        prev is None ==> b,
        prev matches Some(p) ==> (b <==> (p.buttons != r.buttons || p.hat != r.hat || p.lx != r.lx
            || p.ly != r.ly || p.rx != r.rx || p.ry != r.ry || p.l2 != r.l2 || p.r2 != r.r2)),
{
    match prev {
        Some(p) => !(p.buttons == r.buttons && p.hat == r.hat && p.lx == r.lx && p.ly == r.ly
            && p.rx == r.rx && p.ry == r.ry && p.l2 == r.l2 && p.r2 == r.r2),
        None => true,
    }
}

/// Law: key debug mode prints a report exactly when it is the first one or
/// differs from the last one printed in some field: buttons, hat, either
/// stick axis or either trigger.
pub proof fn lemma_report_changed_on_any_field(prev: Option<GamepadReport>, r: GamepadReport)
    ensures
        spec_report_changed(prev, r) <==> prev != Some(r),
        prev matches Some(p) ==> (spec_report_changed(prev, r) <==> (p.buttons != r.buttons || p.hat
            != r.hat || p.lx != r.lx || p.ly != r.ly || p.rx != r.rx || p.ry != r.ry || p.l2 != r.l2
            || p.r2 != r.r2)),
{
}

} // verus!
