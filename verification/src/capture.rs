//! Screen-region geometry and the decisions of the capture loop.

use vstd::prelude::*;
use crate::text::same_text;

verus! {

/// A rectangle in desktop coordinates: top-left corner and size.
#[derive(Debug, Clone, Copy, PartialEq, Eq, Structural)]
pub struct Region {
    pub x: i32,
    pub y: i32,
    pub width: u32,
    pub height: u32,
}

/// Why capturing the screen failed.
#[derive(Debug)]
pub enum CaptureError {
    MonitorNotFound(String),
    CaptureFailed(String),
}

impl CaptureError {
    /// A sentence describing the error.
    pub fn message(&self) -> (r: String)
        ensures
            r@ == match self {
                CaptureError::MonitorNotFound(msg) => "could not find monitor for region: "@ + msg@,
                CaptureError::CaptureFailed(msg) => "screen capture failed: "@ + msg@,
            },
    {
        match self {
            CaptureError::MonitorNotFound(msg) => {
                let mut r = String::from_str("could not find monitor for region: ");
                r.append(msg.as_str());
                r
            },
            CaptureError::CaptureFailed(msg) => {
                let mut r = String::from_str("screen capture failed: ");
                r.append(msg.as_str());
                r
            },
        }
    }
}

/// Which display server the desktop session runs.
#[derive(Debug, Clone, Copy, PartialEq, Eq, Structural)]
pub enum SessionType {
    X11,
    Wayland,
}

/// The session type named by the value of `XDG_SESSION_TYPE`: Wayland when
/// it is exactly `"wayland"`; X11 for anything else, and when it is unset.
pub fn session_type_from_env(value: Option<&str>) -> (r: SessionType)
    ensures
        r == (if value matches Some(v) && v@ == "wayland"@ {
            SessionType::Wayland
        } else {
            SessionType::X11
        }),
{
    match value {
        Some(v) => {
            if same_text(v, "wayland") {
                SessionType::Wayland
            } else {
                SessionType::X11
            }
        },
        None => SessionType::X11,
    }
}

/// Left edge of `m`.
pub open spec fn left_edge(m: Region) -> int {
    m.x as int
}

/// Top edge of `m`.
pub open spec fn top_edge(m: Region) -> int {
    m.y as int
}

/// Right edge of `m`, its width taken as an `i32` as the capture code does.
pub open spec fn right_edge(m: Region) -> int {
    m.x + (m.width as i32)
}

/// Bottom edge of `m`, its height taken as an `i32` as the capture code does.
pub open spec fn bottom_edge(m: Region) -> int {
    m.y + (m.height as i32)
}

pub open spec fn min_int(a: int, b: int) -> int {
    if a <= b {
        a
    } else {
        b
    }
}

pub open spec fn max_int(a: int, b: int) -> int {
    if a >= b {
        a
    } else {
        b
    }
}

/// Smallest left edge among the first `n` regions.
pub open spec fn min_left(s: Seq<Region>, n: int) -> int
    decreases n,
{
    if n <= 1 {
        s[0].x as int
    } else {
        min_int(min_left(s, n - 1), s[n - 1].x as int)
    }
}

/// Smallest top edge among the first `n` regions.
pub open spec fn min_top(s: Seq<Region>, n: int) -> int
    decreases n,
{
    if n <= 1 {
        s[0].y as int
    } else {
        min_int(min_top(s, n - 1), s[n - 1].y as int)
    }
}

/// Largest right edge among the first `n` regions.
pub open spec fn max_right(s: Seq<Region>, n: int) -> int
    decreases n,
{
    if n <= 1 {
        right_edge(s[0])
    } else {
        max_int(max_right(s, n - 1), right_edge(s[n - 1]))
    }
}

/// Largest bottom edge among the first `n` regions.
pub open spec fn max_bottom(s: Seq<Region>, n: int) -> int
    decreases n,
{
    if n <= 1 {
        bottom_edge(s[0])
    } else {
        max_int(max_bottom(s, n - 1), bottom_edge(s[n - 1]))
    }
}

/// The inputs on which the bounding box is computed without an `i32` overflow.
pub open spec fn bounding_box_in_range(s: Seq<Region>) -> bool {
    &&& forall|i: int|
        0 <= i < s.len() ==> i32::MIN <= #[trigger] right_edge(s[i]) <= i32::MAX && i32::MIN
            <= bottom_edge(s[i]) <= i32::MAX
    &&& s.len() > 0 ==> i32::MIN <= max_right(s, s.len() as int) - min_left(s, s.len() as int)
        <= i32::MAX
    &&& s.len() > 0 ==> i32::MIN <= max_bottom(s, s.len() as int) - min_top(s, s.len() as int)
        <= i32::MAX
}

/// The smallest region that covers every region of `s`; all zero for none.
pub open spec fn bounding_box_spec(s: Seq<Region>) -> Region {
    if s.len() == 0 {
        Region { x: 0, y: 0, width: 0, height: 0 }
    } else {
        let n = s.len() as int;
        Region {
            x: min_left(s, n) as i32,
            y: min_top(s, n) as i32,
            width: (max_right(s, n) - min_left(s, n)) as u32,
            height: (max_bottom(s, n) - min_top(s, n)) as u32,
        }
    }
}

proof fn lemma_extremes_bounds(s: Seq<Region>, n: int)
    requires
        1 <= n <= s.len(),
    ensures
        forall|i: int| 0 <= i < n ==> min_left(s, n) <= left_edge(#[trigger] s[i]),
        forall|i: int| 0 <= i < n ==> min_top(s, n) <= top_edge(#[trigger] s[i]),
        forall|i: int| 0 <= i < n ==> right_edge(#[trigger] s[i]) <= max_right(s, n),
        forall|i: int| 0 <= i < n ==> bottom_edge(#[trigger] s[i]) <= max_bottom(s, n),
        exists|i: int| 0 <= i < n && min_left(s, n) == left_edge(#[trigger] s[i]),
        exists|i: int| 0 <= i < n && min_top(s, n) == top_edge(#[trigger] s[i]),
        exists|i: int| 0 <= i < n && max_right(s, n) == right_edge(#[trigger] s[i]),
        exists|i: int| 0 <= i < n && max_bottom(s, n) == bottom_edge(#[trigger] s[i]),
        i32::MIN <= min_left(s, n) <= i32::MAX,
        i32::MIN <= min_top(s, n) <= i32::MAX,
    decreases n,
{
    if n > 1 {
        lemma_extremes_bounds(s, n - 1);
        let last = n - 1;
        // Each extreme is either the last region's edge or the extreme of the
        // regions before it; name the region that attains it.
        let l = if min_left(s, n) == left_edge(s[last]) {
            last
        } else {
            choose|i: int| 0 <= i < n - 1 && min_left(s, n - 1) == left_edge(#[trigger] s[i])
        };
        assert(0 <= l < n && min_left(s, n) == left_edge(s[l]));
        let t = if min_top(s, n) == top_edge(s[last]) {
            last
        } else {
            choose|i: int| 0 <= i < n - 1 && min_top(s, n - 1) == top_edge(#[trigger] s[i])
        };
        assert(0 <= t < n && min_top(s, n) == top_edge(s[t]));
        let r = if max_right(s, n) == right_edge(s[last]) {
            last
        } else {
            choose|i: int| 0 <= i < n - 1 && max_right(s, n - 1) == right_edge(#[trigger] s[i])
        };
        assert(0 <= r < n && max_right(s, n) == right_edge(s[r]));
        let b = if max_bottom(s, n) == bottom_edge(s[last]) {
            last
        } else {
            choose|i: int| 0 <= i < n - 1 && max_bottom(s, n - 1) == bottom_edge(#[trigger] s[i])
        };
        assert(0 <= b < n && max_bottom(s, n) == bottom_edge(s[b]));
    } else {
        assert(min_left(s, n) == left_edge(s[0]));
        assert(min_top(s, n) == top_edge(s[0]));
        assert(max_right(s, n) == right_edge(s[0]));
        assert(max_bottom(s, n) == bottom_edge(s[0]));
    }
}

/// The bounding box of a non-empty list of regions touches each side of some
/// region and covers every region: no region reaches further left, up, right
/// or down than it does.
pub proof fn lemma_bounding_box_covers(s: Seq<Region>)
    requires
        s.len() > 0,
        bounding_box_in_range(s),
        forall|i: int| 0 <= i < s.len() ==> (#[trigger] s[i]).width <= i32::MAX && s[i].height <= i32::MAX,
    ensures
        ({
            let b = bounding_box_spec(s);
            &&& forall|i: int|
                0 <= i < s.len() ==> b.x <= (#[trigger] s[i]).x && s[i].x + s[i].width <= b.x + b.width
                    && b.y <= s[i].y && s[i].y + s[i].height <= b.y + b.height
            &&& exists|i: int| 0 <= i < s.len() && (#[trigger] s[i]).x == b.x
            &&& exists|i: int| 0 <= i < s.len() && (#[trigger] s[i]).y == b.y
            &&& exists|i: int| 0 <= i < s.len() && (#[trigger] s[i]).x + s[i].width == b.x + b.width
            &&& exists|i: int| 0 <= i < s.len() && (#[trigger] s[i]).y + s[i].height == b.y + b.height
        }),
{
    let n = s.len() as int;
    lemma_extremes_bounds(s, n);
    let b = bounding_box_spec(s);
    assert forall|i: int| 0 <= i < n implies right_edge(#[trigger] s[i]) == s[i].x + s[i].width
        && bottom_edge(s[i]) == s[i].y + s[i].height by {}
    assert(max_right(s, n) - min_left(s, n) >= 0) by {
        let i = choose|i: int| 0 <= i < n && min_left(s, n) == left_edge(#[trigger] s[i]);
        assert(right_edge(s[i]) <= max_right(s, n));
        assert(right_edge(s[i]) == s[i].x + s[i].width);
    }
    assert(max_bottom(s, n) - min_top(s, n) >= 0) by {
        let i = choose|i: int| 0 <= i < n && min_top(s, n) == top_edge(#[trigger] s[i]);
        assert(bottom_edge(s[i]) <= max_bottom(s, n));
        assert(bottom_edge(s[i]) == s[i].y + s[i].height);
    }
    assert(b.x == min_left(s, n));
    assert(b.y == min_top(s, n));
    assert(b.width == max_right(s, n) - min_left(s, n));
    assert(b.height == max_bottom(s, n) - min_top(s, n));
    let k = choose|i: int| 0 <= i < n && max_right(s, n) == right_edge(#[trigger] s[i]);
    assert(s[k].x + s[k].width == b.x + b.width);
    let m = choose|i: int| 0 <= i < n && max_bottom(s, n) == bottom_edge(#[trigger] s[i]);
    assert(s[m].y + s[m].height == b.y + b.height);
}

/// The smallest region covering every region of `monitors`; all zero when
/// there are none.
pub fn bounding_box(monitors: &[Region]) -> (r: Region)
    requires
        bounding_box_in_range(monitors@),
    ensures
        r == bounding_box_spec(monitors@),
{
    let n = monitors.len();
    if n == 0 {
        return Region { x: 0, y: 0, width: 0, height: 0 };
    }
    let ghost s = monitors@;
    let first = monitors[0];
    let mut min_x: i32 = first.x;
    let mut min_y: i32 = first.y;
    assert(i32::MIN <= right_edge(s[0]) <= i32::MAX);
    assert(i32::MIN <= bottom_edge(s[0]) <= i32::MAX);
    let mut max_x: i32 = first.x + first.width as i32;
    let mut max_y: i32 = first.y + first.height as i32;
    let mut i: usize = 1;
    while i < n
        invariant
            n == s.len(),
            s == monitors@,
            1 <= i <= n,
            bounding_box_in_range(s),
            min_x == min_left(s, i as int),
            min_y == min_top(s, i as int),
            max_x == max_right(s, i as int),
            max_y == max_bottom(s, i as int),
        decreases n - i,
    {
        let m = monitors[i];
        assert(i32::MIN <= right_edge(s[i as int]) <= i32::MAX);
        assert(i32::MIN <= bottom_edge(s[i as int]) <= i32::MAX);
        if m.x < min_x {
            min_x = m.x;
        }
        if m.y < min_y {
            min_y = m.y;
        }
        let right = m.x + m.width as i32;
        let bottom = m.y + m.height as i32;
        if right > max_x {
            max_x = right;
        }
        if bottom > max_y {
            max_y = bottom;
        }
        i = i + 1;
    }
    Region { x: min_x, y: min_y, width: (max_x - min_x) as u32, height: (max_y - min_y) as u32 }
}

/// Where a region's top-left corner lies on the monitor whose top-left corner
/// is at `(monitor_x, monitor_y)`, clamped at zero.
pub fn monitor_local_origin(region: &Region, monitor_x: i32, monitor_y: i32) -> (r: (u32, u32))
    requires
        i32::MIN <= region.x - monitor_x <= i32::MAX,
        i32::MIN <= region.y - monitor_y <= i32::MAX,
    ensures
        r.0 == max_int(region.x - monitor_x, 0),
        r.1 == max_int(region.y - monitor_y, 0),
{
    let dx = region.x - monitor_x;
    let dy = region.y - monitor_y;
    let lx: u32 = if dx > 0 { dx as u32 } else { 0 };
    let ly: u32 = if dy > 0 { dy as u32 } else { 0 };
    (lx, ly)
}

/// Milliseconds between two captures at `fps` frames per second; a rate of
/// zero counts as one frame per second.
pub fn frame_interval_ms(fps: u32) -> (r: u64)
    ensures
        r == 1000int / (if fps == 0 { 1int } else { fps as int }),
{
    let rate: u32 = if fps == 0 { 1 } else { fps };
    1000 / rate as u64
}

/// How long the capture loop sleeps after a capture that took `elapsed`, to
/// keep one capture per `interval` (both in nanoseconds): the rest of the
/// interval, or nothing when the capture took the whole interval or longer.
pub fn pause_after_capture(interval: u64, elapsed: u64) -> (r: u64)
    ensures
        elapsed < interval ==> r == interval - elapsed,
        elapsed >= interval ==> r == 0,
        elapsed + r == max_int(interval as int, elapsed as int),
{
    if elapsed < interval {
        interval - elapsed
    } else {
        0
    }
}

} // verus!
