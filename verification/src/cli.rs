//! The command line.

use vstd::prelude::*;
use crate::text::{chars_eq, chars_of};

verus! {

/// What the first command-line argument asks for.
#[derive(Clone, Copy, Debug, PartialEq, Eq, Structural)]
pub enum CliCommand {
    /// `--help` or `-h`.
    Help,
    /// `--hidhide-status`.
    HidHideStatus,
    /// `--hidhide-disable`.
    HidHideDisable,
    /// `--debug-keys`.
    DebugKeys,
    /// `--debug-output`.
    DebugOutput,
    /// An argument that does not start with `-` and is none of the above.
    Unknown,
    /// No argument, or another option (such as `--no-deadzone`): run the driver.
    Run,
}

/// The command that the first argument `arg` (empty when absent) names.
pub open spec fn spec_parse_command(arg: Seq<char>) -> CliCommand {
    if arg == "--help"@ || arg == "-h"@ {
        CliCommand::Help
    } else if arg == "--hidhide-status"@ {
        CliCommand::HidHideStatus
    } else if arg == "--hidhide-disable"@ {
        CliCommand::HidHideDisable
    } else if arg == "--debug-keys"@ {
        CliCommand::DebugKeys
    } else if arg == "--debug-output"@ {
        CliCommand::DebugOutput
    } else if arg.len() != 0 && !(arg[0] == '-') {
        CliCommand::Unknown
    } else {
        CliCommand::Run
    }
}

fn is(c: &Vec<char>, s: &str) -> (r: bool)
    ensures
        r == (c@ == s@),
{
    let t = chars_of(s);
    chars_eq(c, &t)
}

/// Reads the first command-line argument (empty when there is none).
pub fn parse_command(arg: &str) -> (r: CliCommand)
    ensures
        r == spec_parse_command(arg@),
{
    let c = chars_of(arg);
    if is(&c, "--help") || is(&c, "-h") {
        CliCommand::Help
    } else if is(&c, "--hidhide-status") {
        CliCommand::HidHideStatus
    } else if is(&c, "--hidhide-disable") {
        CliCommand::HidHideDisable
    } else if is(&c, "--debug-keys") {
        CliCommand::DebugKeys
    } else if is(&c, "--debug-output") {
        CliCommand::DebugOutput
    } else if c.len() != 0 && c[0] != '-' {
        CliCommand::Unknown
    } else {
        CliCommand::Run
    }
}


/// Whether the joystick deadzone applies when the driver runs with first
/// argument `arg`: all but `--no-deadzone` keep it.
pub open spec fn spec_deadzone_enabled(arg: Seq<char>) -> bool {
    arg != "--no-deadzone"@
}

/// Whether the first command-line argument keeps the joystick deadzone.
pub fn deadzone_enabled(arg: &str) -> (r: bool)
    ensures
        r == spec_deadzone_enabled(arg@),
{
    let c = chars_of(arg);
    let off = is(&c, "--no-deadzone");
    !off
}

} // verus!
