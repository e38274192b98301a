//! Screen geometry and interaction timings (durations in milliseconds).
use vstd::prelude::*;

verus! {

pub const SCREEN_WIDTH: u16 = 172;
pub const SCREEN_HEIGHT: u16 = 320;
pub const DISPLAY_X_OFFSET: u16 = 34;
pub const RAW_X_MIN: u16 = 0;
pub const RAW_X_MAX: u16 = 151;
pub const RAW_Y_MIN: u16 = 0;
pub const RAW_Y_MAX: u16 = 331;
pub const MIRROR_X: bool = true;

pub const IDLE_OVERLAY_MARGIN: i32 = 8;
pub const IDLE_OVERLAY_HEIGHT: i32 = 44;

pub const BUTTON_STABLE_MS: u64 = 30;
pub const BUTTON_INACTIVE_GRACE_MS: u64 = 80;
pub const MIN_PRESS_MS: u64 = 40;
pub const RELEASE_DEBOUNCE_MS: u64 = 40;
pub const PRESS_COOLDOWN_MS: u64 = 120;
pub const PIN_BUFFER_LEN: usize = 16;
pub const MAX_PIN_DIGITS: usize = 12;

pub const AUTO_LOCK_TIMEOUT_MS: u64 = 120_000;

} // verus!
