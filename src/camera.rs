use vstd::prelude::*;
use crate::geometry::{mul_div, mul_div_i128};

verus! {

/// Zoom factor 1.0, in the millionths that `Camera::zoom` counts.
pub const ZOOM_ONE: u32 = 1_000_000;

/// Smallest zoom, 0.1.
pub const MIN_ZOOM: u32 = 100_000;

/// Largest zoom, 5.0.
pub const MAX_ZOOM: u32 = 5_000_000;

/// How far one frame of a held pan key moves the view, in screen units.
pub const PAN_STEP: i32 = 5;

/// The view transform: a point `v` of the scene is drawn at
/// `v * zoom / ZOOM_ONE + offset` on each axis.
#[derive(Clone, Copy, Debug, PartialEq, Eq, Structural)]
pub struct Camera {
    pub offset_x: i32,
    pub offset_y: i32,
    /// The zoom factor in millionths.
    pub zoom: u32,
}

/// `v`, held within the range of `i32`.
pub open spec fn saturate_i32(v: int) -> int {
    if v < i32::MIN {
        i32::MIN as int
    } else if v > i32::MAX {
        i32::MAX as int
    } else {
        v
    }
}

/// The zoom after a scroll of `scroll` points: multiplied by
/// `1 + scroll / 1000`, then held within `MIN_ZOOM..=MAX_ZOOM`.
/// A zero scroll leaves the zoom as it is.
pub open spec fn zoom_after_scroll(zoom: int, scroll: int) -> int {
    if scroll == 0 {
        zoom
    } else {
        let raw = zoom * (1000 + scroll) / 1000;
        if raw < MIN_ZOOM {
            MIN_ZOOM as int
        } else if raw > MAX_ZOOM {
            MAX_ZOOM as int
        } else {
            raw
        }
    }
}

/// Where scene coordinate `v` is drawn on an axis with this zoom and offset.
pub open spec fn to_screen(v: int, zoom: int, offset: int) -> int {
    mul_div(v, zoom, ZOOM_ONE as int) + offset
}

impl Camera {
    /// The zoom lies within `MIN_ZOOM..=MAX_ZOOM`.
    pub open spec fn wf(&self) -> bool {
        MIN_ZOOM <= self.zoom <= MAX_ZOOM
    }

    /// No offset, zoom 1.0.
    pub fn new() -> (c: Camera)
        ensures
            c == (Camera { offset_x: 0, offset_y: 0, zoom: ZOOM_ONE }),
            c.wf(),
    {
        Camera { offset_x: 0, offset_y: 0, zoom: ZOOM_ONE }
    }

    /// Pans by one step for each held key: up moves the scene down, left moves
    /// it right, and so on; opposite keys cancel. Offsets stop at the ends of `i32`.
    pub fn pan(&mut self, up: bool, down: bool, left: bool, right: bool)
        ensures
            final(self).zoom == old(self).zoom,
            final(self).offset_y == saturate_i32(
                old(self).offset_y + (if up { PAN_STEP as int } else { 0 }) - (if down {
                    PAN_STEP as int
                } else {
                    0
                }),
            ),
            final(self).offset_x == saturate_i32(
                old(self).offset_x + (if left { PAN_STEP as int } else { 0 }) - (if right {
                    PAN_STEP as int
                } else {
                    0
                }),
            ),
    {
        let mut dy: i64 = 0;
        if up {
            dy = dy + PAN_STEP as i64;
        }
        if down {
            dy = dy - PAN_STEP as i64;
        }
        let mut dx: i64 = 0;
        if left {
            dx = dx + PAN_STEP as i64;
        }
        if right {
            dx = dx - PAN_STEP as i64;
        }
        self.offset_y = saturating_to_i32(self.offset_y as i64 + dy);
        self.offset_x = saturating_to_i32(self.offset_x as i64 + dx);
    }

    /// Zooms by a scroll of `scroll` points (see `zoom_after_scroll`).
    pub fn scroll_zoom(&mut self, scroll: i32)
        ensures
            final(self).offset_x == old(self).offset_x,
            final(self).offset_y == old(self).offset_y,
            final(self).zoom == zoom_after_scroll(old(self).zoom as int, scroll as int),
    {
        if scroll != 0 {
            let z = self.zoom as i128;
            let f = 1000 + scroll as i128;
            assert(-0x1_0000_0000_0000_0000 <= z * f <= 0x1_0000_0000_0000_0000) by (nonlinear_arith)
                requires
                    0 <= z < 0x1_0000_0000,
                    -0x1_0000_0000 <= f <= 0x1_0000_0000,
            ;
            let product: i128 = z * f;
            if product <= 0 {
                self.zoom = MIN_ZOOM;
            } else {
                let raw: i128 = product / 1000;
                if raw < MIN_ZOOM as i128 {
                    self.zoom = MIN_ZOOM;
                } else if raw > MAX_ZOOM as i128 {
                    self.zoom = MAX_ZOOM;
                } else {
                    self.zoom = raw as u32;
                }
            }
        }
    }

    /// Where scene x-coordinate `x` is drawn.
    pub fn screen_x(&self, x: i64) -> (r: i64)
        requires
            -0x1_0000_0000_0000 <= x <= 0x1_0000_0000_0000,
        ensures
            r == to_screen(x as int, self.zoom as int, self.offset_x as int),
    {
        screen_axis(x, self.zoom, self.offset_x)
    }

    /// Where scene y-coordinate `y` is drawn.
    pub fn screen_y(&self, y: i64) -> (r: i64)
        requires
            -0x1_0000_0000_0000 <= y <= 0x1_0000_0000_0000,
        ensures
            r == to_screen(y as int, self.zoom as int, self.offset_y as int),
    {
        screen_axis(y, self.zoom, self.offset_y)
    }
}

fn saturating_to_i32(v: i64) -> (r: i32)
    ensures
        r == saturate_i32(v as int),
{
    if v < i32::MIN as i64 {
        i32::MIN
    } else if v > i32::MAX as i64 {
        i32::MAX
    } else {
        v as i32
    }
}

fn screen_axis(v: i64, zoom: u32, offset: i32) -> (r: i64)
    requires
        -0x1_0000_0000_0000 <= v <= 0x1_0000_0000_0000,
    ensures
        r == to_screen(v as int, zoom as int, offset as int),
{
    let scaled = mul_div_i128(v as i128, zoom as u64, ZOOM_ONE as u64);
    assert(-0x2000_0000_0000_0000 <= scaled <= 0x2000_0000_0000_0000) by {
        let a: int = if v >= 0 { v as int } else { -(v as int) };
        assert(0 <= a * zoom <= 0x1_0000_0000_0000 * 0x1_0000_0000) by (nonlinear_arith)
            requires
                0 <= a <= 0x1_0000_0000_0000,
                0 <= zoom < 0x1_0000_0000,
        ;
        let p = a * zoom;
        assert(p / 1_000_000 <= 0x2000_0000_0000_0000) by (nonlinear_arith)
            requires
                0 <= p <= 0x1_0000_0000_0000 * 0x1_0000_0000,
        ;
    }
    (scaled + offset as i128) as i64
}

} // verus!
