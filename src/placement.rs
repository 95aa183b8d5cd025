use vstd::prelude::*;
use crate::camera::{to_screen, Camera};
use crate::geometry::Point;
use crate::timeline::{in_timeline_order, Event, Timeline};

verus! {

/// The horizontal band that markers are laid out along, in scene coordinates:
/// the earliest event sits at `start_x`, the latest at `start_x + width`, and
/// markers move up and down about `baseline_y`.
#[derive(Clone, Copy, Debug, PartialEq, Eq, Structural)]
pub struct Band {
    pub start_x: i32,
    pub width: u32,
    pub baseline_y: i32,
}

/// One sinusoid of a marker's vertical motion: its offset at time `t` seconds is
/// `amplitude * sin(t * speed / 1000 + phase / 1000)`.
#[derive(Clone, Copy, Debug, PartialEq, Eq, Structural)]
pub struct Wave {
    /// Angular speed, in thousandths of a radian per second.
    pub speed: u64,
    /// Phase, in thousandths of a radian.
    pub phase: u128,
    /// Amplitude, in scene units.
    pub amplitude: u64,
}

/// The main wave of marker `i`: speed `1.5 + (0.1 i mod 1)`, phase `2 i`,
/// amplitude `50 + (10 i mod 30)`.
pub open spec fn wave_spec(i: int) -> Wave {
    Wave {
        speed: (1500 + (100 * i) % 1000) as u64,
        phase: (2000 * i) as u128,
        amplitude: (50 + (10 * i) % 30) as u64,
    }
}

/// The pulse of marker `i`: speed `0.8 + (0.15 i mod 0.5)`, phase `1.5 i`,
/// amplitude `30 + (8 i mod 25)`.
pub open spec fn pulse_spec(i: int) -> Wave {
    Wave {
        speed: (800 + (150 * i) % 500) as u64,
        phase: (1500 * i) as u128,
        amplitude: (30 + (8 * i) % 25) as u64,
    }
}

/// The main wave of the marker at `index`.
pub fn wave_of(index: usize) -> (w: Wave)
    ensures
        w == wave_spec(index as int),
{
    let i = index as u128;
    Wave {
        speed: 1500 + ((i * 100) % 1000) as u64,
        phase: i * 2000,
        amplitude: 50 + ((i * 10) % 30) as u64,
    }
}

/// The pulse of the marker at `index`.
pub fn pulse_of(index: usize) -> (w: Wave)
    ensures
        w == pulse_spec(index as int),
{
    let i = index as u128;
    Wave {
        speed: 800 + ((i * 150) % 500) as u64,
        phase: i * 1500,
        amplitude: 30 + ((i * 8) % 25) as u64,
    }
}

/// Scene x-coordinate of an event at time `ts` on a timeline running from
/// `first` to `last`: its share of the span times the band's width, or the
/// middle of the band when the span is empty.
pub open spec fn base_x(band: Band, first: int, last: int, ts: int) -> int {
    if last - first > 0 {
        band.start_x + (ts - first) * band.width / (last - first)
    } else {
        band.start_x + band.width / 2
    }
}

/// Scene x-coordinate of the event at `i` in `s`.
pub open spec fn marker_base_x(band: Band, s: Seq<Event>, i: int) -> int {
    base_x(band, s[0].timestamp as int, s.last().timestamp as int, s[i].timestamp as int)
}

/// Where the event at `i` in `s` is drawn while it moves freely, given its
/// vertical offset from the baseline at this moment.
pub open spec fn live_point(band: Band, camera: Camera, s: Seq<Event>, i: int, y_offset: int) -> Point {
    Point {
        x: to_screen(marker_base_x(band, s, i), camera.zoom as int, camera.offset_x as int) as i64,
        y: to_screen(band.baseline_y + y_offset, camera.zoom as int, camera.offset_y as int) as i64,
    }
}

/// When the first and last events share a timestamp (a single event, or all
/// events at one time), every marker sits in the middle of the band.
pub proof fn lemma_zero_span_midpoint(band: Band, s: Seq<Event>, i: int)
    requires
        0 <= i < s.len(),
        s[0].timestamp == s.last().timestamp,
    ensures
        marker_base_x(band, s, i) == band.start_x + band.width / 2,
{
}

/// The scene x-coordinate of an event at time `ts` on a timeline running from
/// `first` to `last`.
pub fn marker_x(band: &Band, first: i64, last: i64, ts: i64) -> (x: i64)
    requires
        first <= ts <= last,
    ensures
        x == base_x(*band, first as int, last as int, ts as int),
        band.start_x <= x <= band.start_x + band.width,
{
    let span = (last as i128 - first as i128) as u128;
    if span > 0 {
        let along = (ts as i128 - first as i128) as u128;
        let w = band.width as u128;
        assert(along * w <= span * w) by (nonlinear_arith)
            requires
                along <= span,
        ;
        assert(span * w <= 0x1_0000_0000_0000_0000 * 0x1_0000_0000) by (nonlinear_arith)
            requires
                span <= 0x1_0000_0000_0000_0000,
                w <= 0x1_0000_0000,
        ;
        let share = (along * w) / span;
        assert(share <= w) by (nonlinear_arith)
            requires
                share as int == (along * w) as int / span as int,
                along <= span,
                span > 0,
        ;
        band.start_x as i64 + share as i64
    } else {
        band.start_x as i64 + (band.width / 2) as i64
    }
}

/// Where each event is drawn while it moves freely: `y_offsets[i]` is the
/// vertical offset of the event at `i` at this moment.
pub fn live_positions(timeline: &Timeline, band: &Band, camera: &Camera, y_offsets: &Vec<i32>) -> (r:
    Vec<Point>)
    requires
        timeline.wf(),
        y_offsets@.len() == timeline@.len(),
    ensures
        r@.len() == timeline@.len(),
        forall|i: int|
            0 <= i < r@.len() ==> #[trigger] r@[i] == live_point(
                *band,
                *camera,
                timeline@,
                i,
                y_offsets@[i] as int,
            ),
{
    let events = timeline.events();
    let n = events.len();
    let mut r: Vec<Point> = Vec::new();
    if n == 0 {
        return r;
    }
    let first = events[0].timestamp;
    let last = events[n - 1].timestamp;
    let mut i: usize = 0;
    while i < n
        invariant
            n == events@.len(),
            events@ == timeline@,
            in_timeline_order(events@),
            n > 0,
            first == events@[0].timestamp,
            last == events@.last().timestamp,
            y_offsets@.len() == n,
            i <= n,
            r@.len() == i,
            forall|j: int|
                0 <= j < i ==> #[trigger] r@[j] == live_point(
                    *band,
                    *camera,
                    timeline@,
                    j,
                    y_offsets@[j] as int,
                ),
        decreases n - i,
    {
        let ts = events[i].timestamp;
        assert(first <= ts <= last) by {
            if i > 0 {
                assert(events@[0].timestamp <= events@[i as int].timestamp);
            }
            if i < n - 1 {
                assert(events@[i as int].timestamp <= events@[n - 1].timestamp);
            }
        }
        let bx = marker_x(band, first, last, ts);
        let x = camera.screen_x(bx);
        let y = camera.screen_y(band.baseline_y as i64 + y_offsets[i] as i64);
        r.push(Point { x, y });
        i = i + 1;
    }
    r
}

} // verus!
