//! Touch coordinates and the calibrated mapping from raw panel readings to
//! screen pixels.
use vstd::prelude::*;
use crate::types::TouchCalibration;
use super::constants::{MIRROR_X, RAW_X_MAX, RAW_X_MIN, RAW_Y_MAX, RAW_Y_MIN, SCREEN_HEIGHT, SCREEN_WIDTH};

verus! {

/// A raw reading of the touch controller.
#[derive(Clone, Copy, Debug, PartialEq, Eq, Structural)]
pub struct Coordinates {
    pub x: u16,
    pub y: u16,
}

/// A point on the screen, in pixels.
#[derive(Clone, Copy, Debug, PartialEq, Eq, Structural)]
pub struct ScreenPoint {
    pub x: u16,
    pub y: u16,
}

#[derive(Clone, Copy, Debug, PartialEq, Eq, Structural)]
pub struct TouchSample {
    pub raw: Coordinates,
    pub screen: ScreenPoint,
    pub count: u8,
    pub status: u8,
    pub pressure: u8,
}

pub fn default_touch_calibration() -> (c: TouchCalibration)
    ensures
        c == (TouchCalibration {
            raw_x_min: RAW_X_MIN,
            raw_x_max: RAW_X_MAX,
            raw_y_min: RAW_Y_MIN,
            raw_y_max: RAW_Y_MAX,
            mirror_x: MIRROR_X,
            mirror_y: false,
        }),
{
    TouchCalibration {
        raw_x_min: RAW_X_MIN,
        raw_x_max: RAW_X_MAX,
        raw_y_min: RAW_Y_MIN,
        raw_y_max: RAW_Y_MAX,
        mirror_x: MIRROR_X,
        mirror_y: false,
    }
}

pub open spec fn calibration_valid(c: TouchCalibration) -> bool {
    c.raw_x_min < c.raw_x_max && c.raw_y_min < c.raw_y_max
}

pub fn touch_calibration_valid(calibration: &TouchCalibration) -> (r: bool)
    ensures
        r == calibration_valid(*calibration),
{
    calibration.raw_x_min < calibration.raw_x_max && calibration.raw_y_min < calibration.raw_y_max
}

/// A raw reading clamped into `[min, max]`, then scaled linearly onto
/// `[0, span]` (rounding down).
pub open spec fn scaled_axis(input: int, min: int, max: int, span: int) -> int {
    let clamped = if input < min { min } else if input > max { max } else { input };
    let range = if max - min == 0 { 1 } else { max - min };
    let scaled = (clamped - min) * span / range;
    if scaled > span { span } else { scaled }
}

/// The screen point a raw reading maps to under a calibration.
pub open spec fn transformed(raw: Coordinates, c: TouchCalibration) -> ScreenPoint {
    let span_x = SCREEN_WIDTH - 1;
    let span_y = SCREEN_HEIGHT - 1;
    let x = scaled_axis(raw.x as int, c.raw_x_min as int, c.raw_x_max as int, span_x);
    let y = scaled_axis(raw.y as int, c.raw_y_min as int, c.raw_y_max as int, span_y);
    ScreenPoint {
        x: (if c.mirror_x { span_x - x } else { x }) as u16,
        y: (if c.mirror_y { span_y - y } else { y }) as u16,
    }
}

fn scale_axis(input: u16, min: u16, max: u16, span: u16) -> (r: u16)
    requires
        min <= max,
    ensures
        r == scaled_axis(input as int, min as int, max as int, span as int),
        r <= span,
{
    let clamped: u16 = if input < min { min } else if input > max { max } else { input };
    let diff: u32 = (max - min) as u32;
    let range: u32 = if diff == 0 { 1 } else { diff };
    let shifted: u32 = (clamped - min) as u32;
    assert(shifted * (span as u32) <= 0xFFFF * 0xFFFF) by (nonlinear_arith)
        requires shifted <= 0xFFFF, span <= 0xFFFF;
    let product: u32 = shifted * (span as u32);
    let scaled: u32 = product / range;
    if scaled > span as u32 { span } else { scaled as u16 }
}

/// Map a raw reading to the screen. The calibration's bounds must be ordered
/// (reversed bounds have no mapping).
pub fn transform_raw_touch(raw: Coordinates, calibration: TouchCalibration) -> (p: ScreenPoint)
    requires
        calibration.raw_x_min <= calibration.raw_x_max,
        calibration.raw_y_min <= calibration.raw_y_max,
    ensures
        p == transformed(raw, calibration),
        p.x < SCREEN_WIDTH,
        p.y < SCREEN_HEIGHT,
{
    let span_x: u16 = SCREEN_WIDTH - 1;
    let span_y: u16 = SCREEN_HEIGHT - 1;
    let mut x = scale_axis(raw.x, calibration.raw_x_min, calibration.raw_x_max, span_x);
    let mut y = scale_axis(raw.y, calibration.raw_y_min, calibration.raw_y_max, span_y);
    if calibration.mirror_x {
        x = span_x - x;
    }
    if calibration.mirror_y {
        y = span_y - y;
    }
    ScreenPoint { x, y }
}

} // verus!
