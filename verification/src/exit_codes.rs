//! swiftDialog's exit code contract. Scripts branch on these values, so they
//! are normative bit for bit.

use vstd::prelude::*;

verus! {

/// Button 1 pressed / normal exit.
pub const BUTTON1: i32 = 0;
/// Button 2 pressed.
pub const BUTTON2: i32 = 2;
/// Info button pressed (with `--quitoninfo`).
pub const INFO_BUTTON: i32 = 3;
/// Timer expired.
pub const TIMER: i32 = 4;
/// `quit:` received via the command file.
pub const QUIT_COMMAND: i32 = 5;
/// Quit via quitkey (Cmd/Ctrl+<key>).
pub const QUIT_KEY: i32 = 10;
/// Window close button.
pub const WINDOW_CLOSE: i32 = 15;
/// "Timeout Exceeded".
pub const TIMEOUT: i32 = 20;
/// "Key authorisation required" — `--key` mismatch.
pub const KEY_AUTH_REQUIRED: i32 = 30;
/// SIGTERM received.
pub const SIGTERM: i32 = 40;
/// Image resource cannot be found.
pub const IMAGE_NOT_FOUND: i32 = 201;
/// File not found (e.g. `--jsonfile` path).
pub const FILE_NOT_FOUND: i32 = 202;
/// Invalid colour value specified.
pub const INVALID_COLOUR: i32 = 203;
/// Forced immediate exit.
pub const EXIT_NOW: i32 = 255;

/// The stderr message that accompanies an exit code, as swiftDialog prints it.
pub open spec fn spec_exit_message(code: i32) -> Option<&'static str> {
    if code == TIMEOUT {
        Some("Timeout Exceeded")
    } else if code == KEY_AUTH_REQUIRED {
        Some("Key authorisation required")
    } else if code == IMAGE_NOT_FOUND {
        Some("ERROR: Image resource cannot be found :")
    } else if code == FILE_NOT_FOUND {
        Some("ERROR: File not found :")
    } else if code == INVALID_COLOUR {
        Some("ERROR: Invalid Colour Value Specified. Use format #000000 :")
    } else {
        None
    }
}

/// stderr message that accompanies certain exit codes.
pub fn exit_message(code: i32) -> (r: Option<&'static str>)
    ensures
        r == spec_exit_message(code),
{
    match code {
        TIMEOUT => Some("Timeout Exceeded"),
        KEY_AUTH_REQUIRED => Some("Key authorisation required"),
        IMAGE_NOT_FOUND => Some("ERROR: Image resource cannot be found :"),
        FILE_NOT_FOUND => Some("ERROR: File not found :"),
        INVALID_COLOUR => Some("ERROR: Invalid Colour Value Specified. Use format #000000 :"),
        _ => None,
    }
}

} // verus!
