//! Commands that RetroArch accepts over UDP (`network_cmd_enable = true`).
use vstd::prelude::*;

verus! {

pub const PAUSE_TOGGLE: &'static str = "PAUSE_TOGGLE";
pub const RESET: &'static str = "RESET";
pub const SAVE_STATE: &'static str = "SAVE_STATE";
pub const LOAD_STATE: &'static str = "LOAD_STATE";
pub const STATE_SLOT_PLUS: &'static str = "STATE_SLOT_PLUS";
pub const STATE_SLOT_MINUS: &'static str = "STATE_SLOT_MINUS";
pub const SCREENSHOT: &'static str = "SCREENSHOT";
pub const FULLSCREEN_TOGGLE: &'static str = "FULLSCREEN_TOGGLE";
pub const FAST_FORWARD: &'static str = "FAST_FORWARD";
pub const MENU_TOGGLE: &'static str = "MENU_TOGGLE";
pub const QUIT: &'static str = "QUIT";
/// Answered with `GET_STATUS <PAUSED|PLAYING|CONTENTLESS> <core>,<content>,crc32=…`.
/// Not to be sent while a game runs: RetroArch 1.22.2 (macOS) crashes with SIGSEGV
/// while answering, so the pause state is kept locally.
pub const GET_STATUS: &'static str = "GET_STATUS";

} // verus!
