//! Vertical scrolling of a list inside a viewport, and telling a drag from a
//! tap.
use vstd::prelude::*;
use super::render::Rect;

verus! {

/// Movement, in pixels along either axis, before a touch counts as a drag.
pub const DRAG_THRESHOLD: i32 = 6;

/// The point lies inside the rectangle (edges at the top and left count, at
/// the bottom and right do not).
pub open spec fn rect_contains(r: Rect, x: int, y: int) -> bool {
    r.width > 0 && r.height > 0 && r.x <= x < r.x + r.width && r.y <= y < r.y + r.height
}

pub fn contains_point(r: Rect, x: i32, y: i32) -> (b: bool)
    ensures
        b == rect_contains(r, x as int, y as int),
{
    if r.width == 0 || r.height == 0 {
        return false;
    }
    let right: i64 = r.x as i64 + r.width as i64;
    let bottom: i64 = r.y as i64 + r.height as i64;
    x >= r.x && y >= r.y && (x as i64) < right && (y as i64) < bottom
}

/// The abstract scroll state.
pub struct ScrollView {
    pub viewport: Rect,
    pub offset_y: int,
    pub max_offset_y: int,
    pub last_drag_y: Option<i32>,
}

pub open spec fn scroll_wf(s: ScrollView) -> bool {
    0 <= s.max_offset_y <= i32::MAX && 0 <= s.offset_y <= s.max_offset_y
}

pub open spec fn clamp(v: int, lo: int, hi: int) -> int {
    if v < lo {
        lo
    } else if v > hi {
        hi
    } else {
        v
    }
}

/// Saturating `i32` addition.
pub open spec fn sat_add_i32(a: int, b: int) -> int {
    clamp(a + b, i32::MIN as int, i32::MAX as int)
}

/// The state after the finger moves to height `y`, and whether the list
/// moved.
pub open spec fn after_drag_to(s: ScrollView, y: i32) -> (ScrollView, bool) {
    match s.last_drag_y {
        None => (ScrollView { last_drag_y: Some(y), ..s }, false),
        Some(last) => {
            let off = clamp(sat_add_i32(s.offset_y, last - y), 0, s.max_offset_y);
            (ScrollView { last_drag_y: Some(y), offset_y: off, ..s }, off != s.offset_y)
        },
    }
}

pub struct ScrollState {
    viewport: Rect,
    offset_y: i32,
    max_offset_y: i32,
    last_drag_y: Option<i32>,
}

impl View for ScrollState {
    type V = ScrollView;

    closed spec fn view(&self) -> ScrollView {
        ScrollView {
            viewport: self.viewport,
            offset_y: self.offset_y as int,
            max_offset_y: self.max_offset_y as int,
            last_drag_y: self.last_drag_y,
        }
    }
}

impl ScrollState {
    pub open spec fn wf(&self) -> bool {
        scroll_wf(self@)
    }

    pub fn new(viewport: Rect) -> (s: Self)
        ensures
            s.wf(),
            s@ == (ScrollView { viewport, offset_y: 0, max_offset_y: 0, last_drag_y: None }),
    {
        ScrollState { viewport, offset_y: 0, max_offset_y: 0, last_drag_y: None }
    }

    /// Back to the top, with no drag under way.
    pub fn reset(&mut self)
        ensures
            final(self).wf(),
            final(self)@ == (ScrollView { offset_y: 0, max_offset_y: 0, last_drag_y: None, ..old(self)@ }),
    {
        self.offset_y = 0;
        self.max_offset_y = 0;
        self.last_drag_y = None;
    }

    pub fn contains(&self, x: i32, y: i32) -> (b: bool)
        ensures
            b == rect_contains(self@.viewport, x as int, y as int),
    {
        contains_point(self.viewport, x, y)
    }

    pub fn offset_y(&self) -> (r: i32)
        ensures
            r == self@.offset_y,
    {
        self.offset_y
    }

    pub fn viewport(&self) -> (r: Rect)
        ensures
            r == self@.viewport,
    {
        self.viewport
    }

    /// Sets the list's height for this frame: the list scrolls at most until
    /// its end reaches the bottom of the viewport, and the offset is pulled
    /// back inside that range.
    pub fn set_content_height(&mut self, content_height: i32)
        requires
            old(self).wf(),
        ensures
            final(self).wf(),
            ({
                let content = if content_height > 0 { content_height as int } else { 0 };
                let max = clamp(content - old(self)@.viewport.height, 0, i32::MAX as int);
                final(self)@ == (ScrollView {
                    max_offset_y: max,
                    offset_y: clamp(old(self)@.offset_y, 0, max),
                    ..old(self)@
                })
            }),
    {
        let content: i32 = if content_height > 0 { content_height } else { 0 };
        let viewport_h: i64 = self.viewport.height as i64;
        let diff: i64 = content as i64 - viewport_h;
        let max: i32 = if diff <= 0 { 0 } else { diff as i32 };
        self.max_offset_y = max;
        if self.offset_y > max {
            self.offset_y = max;
        }
    }

    /// Follows the finger to height `y`; returns whether the list moved.
    pub fn drag_to(&mut self, y: i32) -> (moved: bool)
        requires
            old(self).wf(),
            old(self)@.last_drag_y matches Some(l) ==> i32::MIN <= l - y <= i32::MAX,
        ensures
            final(self).wf(),
            (final(self)@, moved) == after_drag_to(old(self)@, y),
    {
        let last_y = match self.last_drag_y {
            Some(l) => l,
            None => {
                self.last_drag_y = Some(y);
                return false;
            },
        };
        self.last_drag_y = Some(y);
        let old_offset = self.offset_y;
        let delta: i64 = last_y as i64 - y as i64;
        let sum: i64 = self.offset_y as i64 + delta;
        let sat: i64 = if sum < i32::MIN as i64 { i32::MIN as i64 } else if sum > i32::MAX as i64 { i32::MAX as i64 } else { sum };
        let clamped: i64 = if sat < 0 { 0 } else if sat > self.max_offset_y as i64 { self.max_offset_y as i64 } else { sat };
        self.offset_y = clamped as i32;
        old_offset != self.offset_y
    }

    pub fn drag_end(&mut self)
        ensures
            final(self)@ == (ScrollView { last_drag_y: None, ..old(self)@ }),
    {
        self.last_drag_y = None;
    }

    pub fn begin_drag(&mut self, y: i32)
        ensures
            final(self)@ == (ScrollView { last_drag_y: Some(y), ..old(self)@ }),
    {
        self.last_drag_y = Some(y);
    }
}

/// Dragging the list one way and back again, within its range, returns it
/// to where it was.
pub proof fn lemma_drag_there_and_back(s: ScrollView, a: i32, b: i32)
    requires
        scroll_wf(s),
        s.last_drag_y == Some(a),
        0 <= s.offset_y + (a - b) <= s.max_offset_y,
    ensures
        ({
            let t = after_drag_to(s, b).0;
            let u = after_drag_to(t, a).0;
            u.offset_y == s.offset_y && u.last_drag_y == Some(a)
        }),
{
}

#[derive(Clone, Copy, Debug, PartialEq, Eq, Structural)]
pub enum DragUpdate {
    Outside,
    Tracking,
    Dragging { moved: bool },
}

pub struct DragView {
    pub start: Option<(i32, i32)>,
    pub active: bool,
}

pub struct DragState {
    start: Option<(i32, i32)>,
    active: bool,
}

impl View for DragState {
    type V = DragView;

    closed spec fn view(&self) -> DragView {
        DragView { start: self.start, active: self.active }
    }
}

pub open spec fn abs(v: int) -> int {
    if v < 0 { -v } else { v }
}

/// The drag tracker and the list after a touch sample at (`x`, `y`), and
/// what the sample meant: off the list ends any drag; the first sample only
/// notes where the touch began; the touch becomes a drag once it moves more
/// than the threshold from there, and the list then follows it from the
/// starting height.
pub open spec fn after_drag_update(d: DragView, s: ScrollView, x: i32, y: i32) -> (DragView, ScrollView, DragUpdate) {
    if !rect_contains(s.viewport, x as int, y as int) {
        (DragView { start: None, active: false }, ScrollView { last_drag_y: None, ..s }, DragUpdate::Outside)
    } else {
        match d.start {
            None => (
                DragView { start: Some((x, y)), active: false },
                ScrollView { last_drag_y: Some(y), ..s },
                DragUpdate::Tracking,
            ),
            Some((sx, sy)) => {
                if !d.active && abs(x - sx) <= DRAG_THRESHOLD && abs(y - sy) <= DRAG_THRESHOLD {
                    (d, s, DragUpdate::Tracking)
                } else {
                    let s1 = if !d.active { ScrollView { last_drag_y: Some(sy), ..s } } else { s };
                    let r = after_drag_to(s1, y);
                    (DragView { active: true, ..d }, r.0, DragUpdate::Dragging { moved: r.1 })
                }
            },
        }
    }
}

impl DragState {
    pub fn new() -> (d: Self)
        ensures
            d@ == (DragView { start: None, active: false }),
    {
        DragState { start: None, active: false }
    }

    pub fn reset(&mut self)
        ensures
            final(self)@ == (DragView { start: None, active: false }),
    {
        self.start = None;
        self.active = false;
    }

    /// Feeds one touch sample.
    pub fn update(&mut self, x: i32, y: i32, scroll: &mut ScrollState) -> (r: DragUpdate)
        requires
            old(scroll).wf(),
            old(scroll)@.last_drag_y matches Some(l) ==> i32::MIN <= l - y <= i32::MAX,
            old(self)@.start matches Some(p) ==> i32::MIN <= p.1 - y <= i32::MAX && i32::MIN <= p.0 - x <= i32::MAX,
        ensures
            final(scroll).wf(),
            (final(self)@, final(scroll)@, r) == after_drag_update(old(self)@, old(scroll)@, x, y),
    {
        if !scroll.contains(x, y) {
            self.reset();
            scroll.drag_end();
            return DragUpdate::Outside;
        }
        let (sx, sy) = match self.start {
            Some(p) => p,
            None => {
                self.start = Some((x, y));
                self.active = false;
                scroll.begin_drag(y);
                return DragUpdate::Tracking;
            },
        };
        if !self.active {
            let dx: i64 = x as i64 - sx as i64;
            let dy: i64 = y as i64 - sy as i64;
            let adx: i64 = if dx < 0 { -dx } else { dx };
            let ady: i64 = if dy < 0 { -dy } else { dy };
            if adx <= DRAG_THRESHOLD as i64 && ady <= DRAG_THRESHOLD as i64 {
                return DragUpdate::Tracking;
            }
            self.active = true;
            scroll.begin_drag(sy);
        }
        let moved = scroll.drag_to(y);
        DragUpdate::Dragging { moved }
    }
}

/// Where the scrollbar thumb sits and how tall it is, or none when the list
/// fits or the track is too short. The thumb's share of the track is the
/// viewport's share of the list, at least 18 pixels.
pub open spec fn thumb_spec(viewport: Rect, offset_y: int, max_offset_y: int, content_h: int) -> Option<(int, int)> {
    let track_h = viewport.height as int;
    if max_offset_y <= 0 || content_h <= 0 || track_h <= 8 {
        None
    } else {
        let thumb_h = clamp((track_h * track_h) / content_h, 18, track_h);
        let travel = if track_h - thumb_h > 1 { track_h - thumb_h } else { 1 };
        Some((viewport.y + (offset_y * travel) / max_offset_y, thumb_h))
    }
}

pub fn scrollbar_thumb(scroll: &ScrollState, content_h: i32) -> (r: Option<(i32, i32)>)
    requires
        scroll.wf(),
        scroll@.viewport.height <= 46340,
        scroll@.max_offset_y * 46340 <= i32::MAX,
        i32::MIN <= scroll@.viewport.y,
        scroll@.viewport.y + 46340 <= i32::MAX,
    ensures
        match r {
            Some((y, h)) => thumb_spec(scroll@.viewport, scroll@.offset_y, scroll@.max_offset_y, content_h as int)
                == Some((y as int, h as int)),
            None => thumb_spec(scroll@.viewport, scroll@.offset_y, scroll@.max_offset_y, content_h as int) is None,
        },
{
    if scroll.max_offset_y <= 0 || content_h <= 0 {
        return None;
    }
    let track_h: i32 = scroll.viewport.height as i32;
    if track_h <= 8 {
        return None;
    }
    assert(track_h * track_h <= 46340 * 46340) by (nonlinear_arith)
        requires
            0 <= track_h <= 46340;
    let sq: i32 = track_h * track_h;
    let ratio: i32 = sq / content_h;
    let thumb_h: i32 = if ratio < 18 { 18 } else if ratio > track_h { track_h } else { ratio };
    let travel: i32 = if track_h - thumb_h > 1 { track_h - thumb_h } else { 1 };
    assert(scroll.offset_y * travel <= scroll.max_offset_y * 46340) by (nonlinear_arith)
        requires
            0 <= scroll.offset_y <= scroll.max_offset_y,
            1 <= travel <= 46340;
    assert(0 <= scroll.offset_y * travel) by (nonlinear_arith)
        requires
            0 <= scroll.offset_y,
            1 <= travel;
    let moved: i32 = (scroll.offset_y * travel) / scroll.max_offset_y;
    assert(moved <= travel) by (nonlinear_arith)
        requires
            moved as int == (scroll.offset_y * travel) / (scroll.max_offset_y as int),
            0 <= scroll.offset_y <= scroll.max_offset_y,
            0 < scroll.max_offset_y,
            1 <= travel;
    Some((scroll.viewport.y + moved, thumb_h))
}

} // verus!
