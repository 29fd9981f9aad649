//! Horizontal strip scrolling: gesture tracking, snapping and clamping.
//!
//! The velocity and position integration of a swipe run on floating point
//! and stay with the caller; what is decided here is which window a swipe
//! lands on and where the strip may go, in whole pixels.
use vstd::prelude::*;

use crate::focus::EntityBits;
use crate::geometry::{fits_i32, half, Point, Rect};

verus! {

/// Which way the strip follows the fingers.
#[derive(Clone, Copy, PartialEq, Eq, Debug, Structural)]
pub enum SwipeGestureDirection {
    /// Content follows the fingers: fingers left moves the strip left.
    Natural,
    Reversed,
}

/// The settings the scrolling logic reads.
#[derive(Clone, Copy, PartialEq, Eq, Debug, Structural)]
pub struct SwipeSettings {
    /// Whether a released multi-finger swipe snaps a window to the centre.
    pub snap_to_window: bool,
    /// The finger count of the swipe gesture, if swiping is enabled.
    pub swipe_gesture_fingers: Option<usize>,
    pub swipe_gesture_direction: SwipeGestureDirection,
    /// Whether the strip may scroll past its edges until the first or last
    /// window reaches the viewport edge.
    pub continuous_swipe: bool,
    /// Whether a resting strip is drawn toward a centred window.
    pub auto_center: bool,
}

/// The integer part of a strip's scrolling state.
#[derive(Clone, Copy, PartialEq, Eq, Debug, Structural)]
pub struct SwipeTracking {
    /// The fingers are (or were just) on the touchpad.
    pub is_user_swiping: bool,
    /// The finger count of the gesture driving the scroll, if it is a
    /// multi-finger swipe.
    pub fingers_count: Option<usize>,
    /// The window that had focus when the fingers went down.
    pub started_focused: Option<EntityBits>,
}

pub open spec fn is_snap_gesture_spec(scrolling: SwipeTracking, config: SwipeSettings) -> bool {
    &&& config.snap_to_window
    &&& config.swipe_gesture_fingers is Some
    &&& scrolling.fingers_count == config.swipe_gesture_fingers
}

/// Whether the gesture driving `scrolling` is the configured multi-finger
/// swipe with snapping enabled, so that its release snaps a window into
/// place instead of coasting.
pub fn is_snap_gesture(scrolling: &SwipeTracking, config: &SwipeSettings) -> (r: bool)
    ensures
        r == is_snap_gesture_spec(*scrolling, *config),
{
    config.snap_to_window && match config.swipe_gesture_fingers {
        Some(fingers) => match scrolling.fingers_count {
            Some(count) => count == fingers,
            None => false,
        },
        None => false,
    }
}

/// The kind of one input event, as the swipe logic sees it.
#[derive(Clone, Copy, PartialEq, Eq, Debug, Structural)]
pub enum GestureEvent {
    TouchpadDown,
    TouchpadUp,
    /// A native modifier-scroll step.
    Scroll,
    /// A raw multi-finger swipe step.
    Swipe { fingers: usize },
    /// Anything else.
    Other,
}

/// What a frame's worth of input events amounts to.
#[derive(Clone, Copy, PartialEq, Eq, Debug, Structural)]
pub struct GestureSummary {
    pub touchpad_down: bool,
    pub touchpad_up: bool,
    /// A scroll step or a swipe step with the configured finger count.
    pub has_scroll_event: bool,
    /// A swipe step with the configured finger count.
    pub has_gesture_event: bool,
    /// The finger count of the last such swipe step.
    pub gesture_fingers: Option<usize>,
}

/// Whether a swipe with `fingers` fingers is the configured gesture.
pub open spec fn counts_as_swipe(config: SwipeSettings, fingers: usize) -> bool {
    config.swipe_gesture_fingers == Some(fingers)
}

/// The summary after one more event.
pub open spec fn summary_step(acc: GestureSummary, event: GestureEvent, config: SwipeSettings) -> GestureSummary {
    match event {
        GestureEvent::TouchpadDown => GestureSummary { touchpad_down: true, ..acc },
        GestureEvent::TouchpadUp => GestureSummary { touchpad_up: true, ..acc },
        GestureEvent::Scroll => GestureSummary { has_scroll_event: true, ..acc },
        GestureEvent::Swipe { fingers } => if counts_as_swipe(config, fingers) {
            GestureSummary {
                has_scroll_event: true,
                has_gesture_event: true,
                gesture_fingers: Some(fingers),
                ..acc
            }
        } else {
            acc
        },
        GestureEvent::Other => acc,
    }
}

/// The summary of the first `n` events.
pub open spec fn summary_of(events: Seq<GestureEvent>, n: nat, config: SwipeSettings) -> GestureSummary
    decreases n,
{
    if n == 0 {
        GestureSummary {
            touchpad_down: false,
            touchpad_up: false,
            has_scroll_event: false,
            has_gesture_event: false,
            gesture_fingers: None,
        }
    } else {
        summary_step(summary_of(events, (n - 1) as nat, config), events[n - 1], config)
    }
}

/// Folds a frame's input events into what the swipe logic acts on.
pub fn summarize_gestures(events: &[GestureEvent], config: &SwipeSettings) -> (r: GestureSummary)
    ensures
        r == summary_of(events@, events@.len(), *config),
{
    let mut acc = GestureSummary {
        touchpad_down: false,
        touchpad_up: false,
        has_scroll_event: false,
        has_gesture_event: false,
        gesture_fingers: None,
    };
    let mut i: usize = 0;
    while i < events.len()
        invariant
            i <= events@.len(),
            acc == summary_of(events@, i as nat, *config),
        decreases events@.len() - i,
    {
        match events[i] {
            GestureEvent::TouchpadDown => acc.touchpad_down = true,
            GestureEvent::TouchpadUp => acc.touchpad_up = true,
            GestureEvent::Scroll => acc.has_scroll_event = true,
            GestureEvent::Swipe { fingers } => {
                let configured = match config.swipe_gesture_fingers {
                    Some(f) => f == fingers,
                    None => false,
                };
                if configured {
                    acc.has_scroll_event = true;
                    acc.has_gesture_event = true;
                    acc.gesture_fingers = Some(fingers);
                }
            },
            GestureEvent::Other => {},
        }
        i = i + 1;
    }
    acc
}

/// Whether a frame's events touch the strip's scrolling at all.
pub open spec fn summary_is_idle(s: GestureSummary) -> bool {
    !s.touchpad_down && !s.touchpad_up && !s.has_scroll_event
}

/// The tracking state after the fingers went down, if they did.
pub open spec fn after_touch_down(t: SwipeTracking, s: GestureSummary, focused: Option<EntityBits>) -> SwipeTracking {
    if s.touchpad_down {
        SwipeTracking { is_user_swiping: true, fingers_count: None, started_focused: focused }
    } else {
        t
    }
}

/// The tracking state after the fingers lifted, if they did and the
/// gesture does not snap.
pub open spec fn after_lift(t: SwipeTracking, s: GestureSummary, config: SwipeSettings) -> SwipeTracking {
    if s.touchpad_up && !is_snap_gesture_spec(t, config) {
        SwipeTracking { is_user_swiping: false, fingers_count: None, started_focused: None }
    } else {
        t
    }
}

/// The tracking state after scroll steps, if there were any.
pub open spec fn after_scroll(t: SwipeTracking, s: GestureSummary) -> SwipeTracking {
    if s.has_scroll_event {
        SwipeTracking {
            is_user_swiping: true,
            fingers_count: if s.has_gesture_event {
                s.gesture_fingers
            } else {
                t.fingers_count
            },
            ..t
        }
    } else {
        t
    }
}

/// How one frame of input moves a strip's tracking state: fingers down
/// restart tracking from the focused window, a lift ends a gesture that
/// does not snap, and scrolling keeps the user swiping. A strip that was
/// not scrolling starts to only when something scrolled.
pub fn track_swipe(
    current: Option<SwipeTracking>,
    summary: &GestureSummary,
    config: &SwipeSettings,
    focused_at_start: Option<EntityBits>,
) -> (r: Option<SwipeTracking>)
    ensures
        summary_is_idle(*summary) ==> r == current,
        !summary_is_idle(*summary) ==> r == (match current {
            Some(t) => Some(
                after_scroll(
                    after_lift(after_touch_down(t, *summary, focused_at_start), *summary, *config),
                    *summary,
                ),
            ),
            None => if summary.has_scroll_event {
                Some(
                    SwipeTracking {
                        is_user_swiping: true,
                        fingers_count: summary.gesture_fingers,
                        started_focused: focused_at_start,
                    },
                )
            } else {
                None
            },
        }),
{
    if !summary.touchpad_down && !summary.touchpad_up && !summary.has_scroll_event {
        return current;
    }
    match current {
        Some(t) => {
            let mut t = t;
            if summary.touchpad_down {
                t.is_user_swiping = true;
                t.fingers_count = None;
                t.started_focused = focused_at_start;
            }
            if summary.touchpad_up && !is_snap_gesture(&t, config) {
                t.is_user_swiping = false;
                t.fingers_count = None;
                t.started_focused = None;
            }
            if summary.has_scroll_event {
                t.is_user_swiping = true;
                if summary.has_gesture_event {
                    t.fingers_count = summary.gesture_fingers;
                }
            }
            Some(t)
        },
        None => if summary.has_scroll_event {
            Some(
                SwipeTracking {
                    is_user_swiping: true,
                    fingers_count: summary.gesture_fingers,
                    started_focused: focused_at_start,
                },
            )
        } else {
            None
        },
    }
}


/// How long a strip's fingers must be still before its swipe counts as
/// lifted, in nanoseconds (50 ms).
pub const FINGER_LIFT_THRESHOLD_NS: u64 = 50_000_000;

/// How long a snap gesture may go without samples before it is released
/// anyway, in nanoseconds (150 ms). Longer than the lift threshold, so that
/// a brief pause in the samples cannot strand the strip before the system
/// reports the fingers lifting.
pub const SNAP_GESTURE_TIMEOUT_NS: u64 = 150_000_000;

/// Whether a snap gesture is released this frame.
pub open spec fn snap_due(scrolling: SwipeTracking, config: SwipeSettings, released: bool, quiet_ns: u64) -> bool {
    config.snap_to_window && is_snap_gesture_spec(scrolling, config) && (released || quiet_ns
        > SNAP_GESTURE_TIMEOUT_NS)
}

/// Whether the end of a snap gesture has come: the configured multi-finger
/// swipe with snapping on, whose fingers have lifted, or whose last sample
/// is more than the snap timeout old (`quiet_ns` nanoseconds have passed
/// since it).
pub fn snap_release_due(scrolling: &SwipeTracking, config: &SwipeSettings, released: bool, quiet_ns: u64) -> (r: bool)
    ensures
        r == snap_due(*scrolling, *config, released, quiet_ns),
{
    config.snap_to_window && is_snap_gesture(scrolling, config) && (released || quiet_ns
        > SNAP_GESTURE_TIMEOUT_NS)
}

/// The tracking state once a snap has been carried out: the gesture is over.
pub fn finish_snap(scrolling: &mut SwipeTracking)
    ensures
        *final(scrolling) == (SwipeTracking {
            is_user_swiping: false,
            fingers_count: None,
            started_focused: None,
        }),
{
    scrolling.is_user_swiping = false;
    scrolling.fingers_count = None;
    scrolling.started_focused = None;
}

/// Whether a strip's swipe ends this frame on its own: its last sample is
/// more than the lift threshold old and no snap gesture is pending.
pub open spec fn settles(scrolling: SwipeTracking, config: SwipeSettings, quiet_ns: u64) -> bool {
    quiet_ns > FINGER_LIFT_THRESHOLD_NS && !is_snap_gesture_spec(scrolling, config)
}

/// Ends the swiping of a strip whose last sample is more than the lift
/// threshold old (`quiet_ns` nanoseconds have passed since it), unless a
/// snap gesture is pending (the snap ends it instead). Returns whether it
/// was ended.
pub fn settle_after_lift(scrolling: &mut SwipeTracking, config: &SwipeSettings, quiet_ns: u64) -> (r: bool)
    ensures
        r == settles(*old(scrolling), *config, quiet_ns),
        r ==> *final(scrolling) == (SwipeTracking { is_user_swiping: false, ..*old(scrolling) }),
        !r ==> *final(scrolling) == *old(scrolling),
{
    if quiet_ns <= FINGER_LIFT_THRESHOLD_NS || is_snap_gesture(scrolling, config) {
        return false;
    }
    scrolling.is_user_swiping = false;
    true
}

// ---------------------------------------------------------------------------
// Strip geometry
// ---------------------------------------------------------------------------

/// What is known of the window at the top of one strip column: its offset
/// within the strip and its width, each only when the window has one.
#[derive(Clone, Copy, PartialEq, Eq, Debug, Structural)]
pub struct ColumnSample {
    pub entity: EntityBits,
    pub layout_x: Option<i32>,
    pub width: Option<i32>,
}

pub open spec fn abs_int(v: int) -> int {
    if v < 0 {
        -v
    } else {
        v
    }
}

pub open spec fn clamp_spec(v: int, lo: int, hi: int) -> int {
    if v < lo {
        lo
    } else if v > hi {
        hi
    } else {
        v
    }
}

fn clamp_i32(v: i32, lo: i32, hi: i32) -> (r: i32)
    requires
        lo <= hi,
    ensures
        r == clamp_spec(v as int, lo as int, hi as int),
{
    if v < lo {
        lo
    } else if v > hi {
        hi
    } else {
        v
    }
}

/// Whether both the offset and the width of a column's window are known.
pub open spec fn has_geometry(s: ColumnSample) -> bool {
    s.layout_x is Some && s.width is Some
}

/// The on-screen centre of a column's window when the strip sits at
/// `strip_x`.
pub open spec fn column_center(s: ColumnSample, strip_x: int) -> int {
    s.layout_x.unwrap() + strip_x + half(s.width.unwrap() as int)
}

/// Whether every column centre is computable without overflow.
pub open spec fn centers_fit(columns: Seq<ColumnSample>, strip_x: int) -> bool {
    forall|i: int|
        0 <= i < columns.len() && has_geometry(#[trigger] columns[i]) ==> fits_i32(
            columns[i].layout_x.unwrap() + strip_x,
        ) && fits_i32(column_center(columns[i], strip_x))
}

/// The distance of each column's window centre from `target`, for the
/// columns whose geometry is known.
pub open spec fn center_distances(columns: Seq<ColumnSample>, strip_x: int, target: int) -> Seq<
    Option<int>,
> {
    Seq::new(
        columns.len(),
        |i: int|
            if has_geometry(columns[i]) {
                Some(abs_int(column_center(columns[i], strip_x) - target))
            } else {
                None
            },
    )
}

/// Whether `i` is the first index, among the first `n`, whose key is
/// known and smallest.
pub open spec fn is_first_min(keys: Seq<Option<int>>, n: int, i: int) -> bool {
    &&& 0 <= i < n
    &&& keys[i] is Some
    &&& forall|j: int| 0 <= j < n && (#[trigger] keys[j]) is Some ==> keys[i].unwrap() <= keys[j].unwrap()
    &&& forall|j: int| 0 <= j < i && (#[trigger] keys[j]) is Some ==> keys[j].unwrap() > keys[i].unwrap()
}

/// Whether none of the first `n` keys is known.
pub open spec fn no_key(keys: Seq<Option<int>>, n: int) -> bool {
    forall|j: int| 0 <= j < n ==> (#[trigger] keys[j]) is None
}

fn nearest_index(columns: &[ColumnSample], strip_x: i32, target: i32) -> (r: Option<usize>)
    requires
        centers_fit(columns@, strip_x as int),
    ensures
        match r {
            Some(i) => is_first_min(
                center_distances(columns@, strip_x as int, target as int),
                columns@.len() as int,
                i as int,
            ),
            None => no_key(
                center_distances(columns@, strip_x as int, target as int),
                columns@.len() as int,
            ),
        },
{
    let ghost keys = center_distances(columns@, strip_x as int, target as int);
    let mut best: Option<usize> = None;
    let mut best_distance: u64 = 0;
    let mut i: usize = 0;
    while i < columns.len()
        invariant
            i <= columns@.len(),
            keys == center_distances(columns@, strip_x as int, target as int),
            centers_fit(columns@, strip_x as int),
            match best {
                Some(b) => is_first_min(keys, i as int, b as int) && keys[b as int] == Some(
                    best_distance as int,
                ),
                None => no_key(keys, i as int),
            },
        decreases columns@.len() - i,
    {
        let sample = columns[i];
        match (sample.layout_x, sample.width) {
            (Some(layout_x), Some(width)) => {
                assert(has_geometry(columns@[i as int]));
                let center = layout_x + strip_x + width / 2;
                let diff = center as i64 - target as i64;
                let distance: u64 = if diff < 0 {
                    (-diff) as u64
                } else {
                    diff as u64
                };
                assert(keys[i as int] == Some(distance as int));
                let better = match best {
                    Some(_) => distance < best_distance,
                    None => true,
                };
                if better {
                    best = Some(i);
                    best_distance = distance;
                }
            },
            _ => {
                assert(keys[i as int] is None);
            },
        }
        i = i + 1;
    }
    best
}

/// The window whose centre is nearest the viewport's centre when the strip
/// sits at `strip_x`; the first such column on a tie. Columns whose window
/// has no known geometry are passed over.
pub fn nearest_window(columns: &[ColumnSample], strip_x: i32, viewport: &Rect) -> (r: Option<EntityBits>)
    requires
        centers_fit(columns@, strip_x as int),
        fits_i32(viewport.min.x + viewport.max.x),
        fits_i32(viewport.min.y + viewport.max.y),
    ensures
        match r {
            Some(e) => exists|i: int|
                is_first_min(
                    center_distances(columns@, strip_x as int, viewport.spec_center_x()),
                    columns@.len() as int,
                    i,
                ) && columns@[i].entity == e,
            None => no_key(
                center_distances(columns@, strip_x as int, viewport.spec_center_x()),
                columns@.len() as int,
            ),
        },
{
    let center = viewport.center();
    match nearest_index(columns, strip_x, center.x) {
        Some(i) => Some(columns[i].entity),
        None => None,
    }
}

/// The full width of a strip: where its last column's window ends, when
/// that window's geometry is known.
pub open spec fn strip_width_of(last: Option<ColumnSample>) -> Option<int> {
    match last {
        Some(s) => if has_geometry(s) {
            Some(s.layout_x.unwrap() + s.width.unwrap())
        } else {
            None
        },
        None => None,
    }
}

/// Whether the strip scrolls continuously: allowed, and both snap points
/// (the last column's and the second column's offsets) are known.
pub open spec fn continuous_bounds(last: ColumnSample, second: Option<ColumnSample>, continuous_swipe: bool) -> bool {
    continuous_swipe && last.layout_x is Some && second is Some && second.unwrap().layout_x is Some
}

/// The range the strip offset is held to, given a known strip width.
/// Scrolling continuously, the strip may move until the last window's left
/// edge meets the viewport's left edge, or the second window's left edge
/// its right edge. Otherwise a strip wider than the viewport keeps both
/// viewport edges covered, and a narrower one stays inside the viewport.
pub open spec fn offset_bounds(
    last: ColumnSample,
    second: Option<ColumnSample>,
    viewport: Rect,
    continuous_swipe: bool,
) -> (int, int) {
    let total = last.layout_x.unwrap() + last.width.unwrap();
    if continuous_bounds(last, second, continuous_swipe) {
        (
            viewport.min.x - last.layout_x.unwrap(),
            viewport.max.x - second.unwrap().layout_x.unwrap(),
        )
    } else if viewport.spec_width() < total {
        (viewport.max.x - total, viewport.min.x as int)
    } else {
        (viewport.min.x as int, viewport.max.x - total)
    }
}

/// Whether holding an offset to the strip's bounds is defined: every
/// quantity fits in an `i32` and the bounds are in order.
pub open spec fn clamp_defined(
    last: Option<ColumnSample>,
    second: Option<ColumnSample>,
    viewport: Rect,
    continuous_swipe: bool,
) -> bool {
    strip_width_of(last) is Some ==> {
        let l = last.unwrap();
        let (lo, hi) = offset_bounds(l, second, viewport, continuous_swipe);
        &&& fits_i32(strip_width_of(last).unwrap())
        &&& !continuous_bounds(l, second, continuous_swipe) ==> fits_i32(viewport.spec_width())
        &&& fits_i32(lo)
        &&& fits_i32(hi)
        &&& lo <= hi
    }
}

/// The offset `current` held to the strip's bounds, or `None` when the
/// strip's width is unknown.
pub open spec fn clamped_offset(
    current: int,
    last: Option<ColumnSample>,
    second: Option<ColumnSample>,
    viewport: Rect,
    continuous_swipe: bool,
) -> Option<int> {
    match strip_width_of(last) {
        Some(_) => {
            let (lo, hi) = offset_bounds(last.unwrap(), second, viewport, continuous_swipe);
            Some(clamp_spec(current, lo, hi))
        },
        None => None,
    }
}

/// Holds a strip offset to the range the strip may scroll in. `last` is the
/// window at the top of the strip's last column and `second` the one at
/// the top of its second column, when the strip has such columns.
pub fn clamp_viewport_offset(
    current_offset: i32,
    last: Option<ColumnSample>,
    second: Option<ColumnSample>,
    viewport: &Rect,
    continuous_swipe: bool,
) -> (r: Option<i32>)
    requires
        clamp_defined(last, second, *viewport, continuous_swipe),
    ensures
        match r {
            Some(v) => clamped_offset(
                current_offset as int,
                last,
                second,
                *viewport,
                continuous_swipe,
            ) == Some(v as int),
            None => clamped_offset(
                current_offset as int,
                last,
                second,
                *viewport,
                continuous_swipe,
            ) is None,
        },
{
    let l = match last {
        Some(l) => l,
        None => return None,
    };
    let (left_snap, width) = match (l.layout_x, l.width) {
        (Some(x), Some(w)) => (x, w),
        _ => return None,
    };
    let total_strip_width = left_snap + width;
    let right_snap = match second {
        Some(s) => s.layout_x,
        None => None,
    };
    let v = if continuous_swipe && right_snap.is_some() {
        let right_snap = right_snap.unwrap();
        clamp_i32(current_offset, viewport.min.x - left_snap, viewport.max.x - right_snap)
    } else if viewport.width() < total_strip_width {
        clamp_i32(current_offset, viewport.max.x - total_strip_width, viewport.min.x)
    } else {
        clamp_i32(current_offset, viewport.min.x, viewport.max.x - total_strip_width)
    };
    Some(v)
}

/// The strip offset that centres `target`'s window in the viewport.
pub open spec fn centering_offset(target: ColumnSample, viewport: Rect) -> int {
    viewport.spec_center_x() - (target.layout_x.unwrap() + half(target.width.unwrap() as int))
}

/// Whether centring `target` is computable without overflow.
pub open spec fn centering_defined(
    target: ColumnSample,
    last: Option<ColumnSample>,
    second: Option<ColumnSample>,
    viewport: Rect,
    continuous_swipe: bool,
) -> bool {
    &&& fits_i32(viewport.min.x + viewport.max.x)
    &&& fits_i32(viewport.min.y + viewport.max.y)
    &&& has_geometry(target) ==> fits_i32(
        target.layout_x.unwrap() + half(target.width.unwrap() as int),
    ) && fits_i32(centering_offset(target, viewport))
    &&& clamp_defined(last, second, viewport, continuous_swipe)
}

/// Where the strip goes to centre `target`'s window, held to the strip's
/// bounds (or merely centred, when the bounds are unknown).
pub open spec fn centered_position(
    target: ColumnSample,
    last: Option<ColumnSample>,
    second: Option<ColumnSample>,
    current: Point,
    viewport: Rect,
    continuous_swipe: bool,
) -> Option<Point> {
    if has_geometry(target) {
        let x = centering_offset(target, viewport);
        let clamped = match clamped_offset(x, last, second, viewport, continuous_swipe) {
            Some(c) => c,
            None => x,
        };
        Some(Point { x: clamped as i32, y: current.y })
    } else {
        None
    }
}

/// Where the strip goes to centre `target`'s window; `None` when that
/// window's geometry is unknown. Transient layout changes can make the
/// strip's bounds unknown; the window is then centred without them.
pub fn centered_strip_position(
    target: ColumnSample,
    last: Option<ColumnSample>,
    second: Option<ColumnSample>,
    current_position: Point,
    viewport: &Rect,
    continuous_swipe: bool,
) -> (r: Option<Point>)
    requires
        centering_defined(target, last, second, *viewport, continuous_swipe),
    ensures
        r == centered_position(target, last, second, current_position, *viewport, continuous_swipe),
{
    let (layout_x, width) = match (target.layout_x, target.width) {
        (Some(x), Some(w)) => (x, w),
        _ => return None,
    };
    let center = viewport.center();
    let target_x = center.x - (layout_x + width / 2);
    let clamped_x = match clamp_viewport_offset(target_x, last, second, viewport, continuous_swipe) {
        Some(c) => c,
        None => target_x,
    };
    Some(Point { x: clamped_x, y: current_position.y })
}


/// Whether the windows a snap actually centres can be centred without
/// overflow: the preferred window when it has a position; otherwise the
/// window nearest the viewport's centre, which must then be computable.
pub open spec fn snap_defined(
    preferred: Option<ColumnSample>,
    columns: Seq<ColumnSample>,
    strip_x: int,
    last: Option<ColumnSample>,
    second: Option<ColumnSample>,
    viewport: Rect,
    continuous_swipe: bool,
) -> bool {
    if preferred is Some && has_geometry(preferred.unwrap()) {
        centering_defined(preferred.unwrap(), last, second, viewport, continuous_swipe)
    } else {
        &&& centers_fit(columns, strip_x)
        &&& fits_i32(viewport.min.x + viewport.max.x)
        &&& fits_i32(viewport.min.y + viewport.max.y)
        &&& forall|i: int|
            #[trigger] is_first_min(
                center_distances(columns, strip_x, viewport.spec_center_x()),
                columns.len() as int,
                i,
            ) ==> centering_defined(columns[i], last, second, viewport, continuous_swipe)
    }
}

/// The window a released snap gesture settles on and the strip position
/// that centres it: the preferred window (the release target) when it can
/// be centred, else the window nearest the viewport's centre.
pub fn snap_target(
    preferred: Option<ColumnSample>,
    columns: &[ColumnSample],
    strip_position: Point,
    last: Option<ColumnSample>,
    second: Option<ColumnSample>,
    viewport: &Rect,
    continuous_swipe: bool,
) -> (r: Option<(EntityBits, Point)>)
    requires
        snap_defined(
            preferred,
            columns@,
            strip_position.x as int,
            last,
            second,
            *viewport,
            continuous_swipe,
        ),
        fits_i32(viewport.min.x + viewport.max.x),
        fits_i32(viewport.min.y + viewport.max.y),
    ensures
        preferred is Some && has_geometry(preferred.unwrap()) ==> r == Some(
            (
                preferred.unwrap().entity,
                centered_position(
                    preferred.unwrap(),
                    last,
                    second,
                    strip_position,
                    *viewport,
                    continuous_swipe,
                ).unwrap(),
            ),
        ),
        !(preferred is Some && has_geometry(preferred.unwrap())) ==> match r {
            Some((entity, position)) => exists|i: int|
                is_first_min(
                    center_distances(columns@, strip_position.x as int, viewport.spec_center_x()),
                    columns@.len() as int,
                    i,
                ) && entity == columns@[i].entity && Some(position) == centered_position(
                    columns@[i],
                    last,
                    second,
                    strip_position,
                    *viewport,
                    continuous_swipe,
                ),
            None => no_key(
                center_distances(columns@, strip_position.x as int, viewport.spec_center_x()),
                columns@.len() as int,
            ),
        },
{
    if let Some(p) = preferred {
        if p.layout_x.is_some() && p.width.is_some() {
            if let Some(position) = centered_strip_position(
                p,
                last,
                second,
                strip_position,
                viewport,
                continuous_swipe,
            ) {
                return Some((p.entity, position));
            }
        }
    }
    let center = viewport.center();
    match nearest_index(columns, strip_position.x, center.x) {
        Some(i) => {
            let target = columns[i];
            let position = centered_strip_position(
                target,
                last,
                second,
                strip_position,
                viewport,
                continuous_swipe,
            ).unwrap();
            Some((target.entity, position))
        },
        None => None,
    }
}

/// Which window a fling lands on: from the window focused when the fingers
/// went down, one column toward where the momentum would carry the strip
/// (staying put at the strip's end), or that window itself when the
/// momentum stays within its column.
pub fn release_step(
    start_index: usize,
    projected_index: usize,
    started_focused: EntityBits,
    left_neighbour: Option<EntityBits>,
    right_neighbour: Option<EntityBits>,
) -> (r: EntityBits)
    ensures
        projected_index < start_index ==> r == (match left_neighbour {
            Some(e) => e,
            None => started_focused,
        }),
        projected_index == start_index ==> r == started_focused,
        projected_index > start_index ==> r == (match right_neighbour {
            Some(e) => e,
            None => started_focused,
        }),
{
    if projected_index < start_index {
        match left_neighbour {
            Some(e) => e,
            None => started_focused,
        }
    } else if projected_index == start_index {
        started_focused
    } else {
        match right_neighbour {
            Some(e) => e,
            None => started_focused,
        }
    }
}

/// The window focused when the fingers went down, as found in the strip:
/// its column and the windows of the columns beside it.
#[derive(Clone, Copy, PartialEq, Eq, Debug, Structural)]
pub struct FlingStart {
    pub entity: EntityBits,
    pub index: usize,
    pub left_neighbour: Option<EntityBits>,
    pub right_neighbour: Option<EntityBits>,
}

/// The window a released swipe settles on.
pub open spec fn release_target_spec(
    nearest: Option<EntityBits>,
    fling: bool,
    start: Option<FlingStart>,
    projected_index: Option<usize>,
) -> Option<EntityBits> {
    match nearest {
        None => None,
        Some(n) => if !fling {
            Some(n)
        } else {
            match start {
                None => Some(n),
                Some(s) => match projected_index {
                    None => None,
                    Some(p) => Some(
                        if p < s.index {
                            match s.left_neighbour {
                                Some(e) => e,
                                None => s.entity,
                            }
                        } else if p == s.index {
                            s.entity
                        } else {
                            match s.right_neighbour {
                                Some(e) => e,
                                None => s.entity,
                            }
                        },
                    ),
                },
            }
        },
    }
}

/// The window a released swipe settles on. `nearest` is the window nearest
/// the viewport's centre (none when no window has a position); `fling`
/// whether the release was fast enough to carry momentum; `start` the
/// window focused when the fingers went down, if it is still in the strip;
/// `projected_index` the column of the window nearest where the momentum
/// would carry the strip. A slow release, or one whose starting window is
/// gone, settles on the nearest window; a fling moves one column from the
/// starting window toward the projection.
pub fn release_target(
    nearest: Option<EntityBits>,
    fling: bool,
    start: Option<FlingStart>,
    projected_index: Option<usize>,
) -> (r: Option<EntityBits>)
    ensures
        r == release_target_spec(nearest, fling, start, projected_index),
{
    let n = match nearest {
        None => return None,
        Some(n) => n,
    };
    if !fling {
        return Some(n);
    }
    let s = match start {
        None => return Some(n),
        Some(s) => s,
    };
    match projected_index {
        None => None,
        Some(p) => Some(
            release_step(s.index, p, s.entity, s.left_neighbour, s.right_neighbour),
        ),
    }
}

/// The strip offset that centres a column's window, counting an unknown
/// width as zero.
pub open spec fn snap_offset(s: ColumnSample, viewport_center: int) -> int {
    viewport_center - (s.layout_x.unwrap() + half(
        match s.width {
            Some(w) => w as int,
            None => 0,
        },
    ))
}

/// How far the strip at `position_x` is from centring each column's
/// window, for the columns whose offset is known.
pub open spec fn snap_distances(columns: Seq<ColumnSample>, viewport_center: int, position_x: int) -> Seq<
    Option<int>,
> {
    Seq::new(
        columns.len(),
        |i: int|
            if columns[i].layout_x is Some {
                Some(abs_int(position_x - snap_offset(columns[i], viewport_center)))
            } else {
                None
            },
    )
}

/// Whether every snap offset and distance is computable without overflow.
pub open spec fn snap_offsets_fit(columns: Seq<ColumnSample>, viewport_center: int, position_x: int) -> bool {
    forall|i: int|
        0 <= i < columns.len() && (#[trigger] columns[i]).layout_x is Some ==> {
            &&& fits_i32(
                columns[i].layout_x.unwrap() + half(
                    match columns[i].width {
                        Some(w) => w as int,
                        None => 0,
                    },
                ),
            )
            &&& fits_i32(snap_offset(columns[i], viewport_center))
            &&& fits_i32(position_x - snap_offset(columns[i], viewport_center))
            &&& position_x - snap_offset(columns[i], viewport_center) != i32::MIN
        }
}

/// The offset a resting strip at `position_x` is drawn toward: the one
/// centring the nearest window (the first on a tie), or `position_x` itself
/// when no window's offset is known.
pub fn snap_target_offset(columns: &[ColumnSample], viewport_center_x: i32, position_x: i32) -> (r: i32)
    requires
        snap_offsets_fit(columns@, viewport_center_x as int, position_x as int),
    ensures
        no_key(
            snap_distances(columns@, viewport_center_x as int, position_x as int),
            columns@.len() as int,
        ) ==> r == position_x,
        !no_key(
            snap_distances(columns@, viewport_center_x as int, position_x as int),
            columns@.len() as int,
        ) ==> exists|i: int|
            is_first_min(
                snap_distances(columns@, viewport_center_x as int, position_x as int),
                columns@.len() as int,
                i,
            ) && r == snap_offset(columns@[i], viewport_center_x as int),
{
    let ghost keys = snap_distances(columns@, viewport_center_x as int, position_x as int);
    let mut best: Option<usize> = None;
    let mut best_distance: i32 = 0;
    let mut best_target: i32 = position_x;
    let mut i: usize = 0;
    while i < columns.len()
        invariant
            i <= columns@.len(),
            keys == snap_distances(columns@, viewport_center_x as int, position_x as int),
            snap_offsets_fit(columns@, viewport_center_x as int, position_x as int),
            match best {
                Some(b) => is_first_min(keys, i as int, b as int) && keys[b as int] == Some(
                    best_distance as int,
                ) && best_target == snap_offset(columns@[b as int], viewport_center_x as int),
                None => no_key(keys, i as int) && best_target == position_x,
            },
        decreases columns@.len() - i,
    {
        let sample = columns[i];
        match sample.layout_x {
            Some(layout_x) => {
                assert(columns@[i as int].layout_x is Some);
                let width = match sample.width {
                    Some(w) => w,
                    None => 0,
                };
                let target = viewport_center_x - (layout_x + width / 2);
                let diff = position_x - target;
                let distance = if diff < 0 {
                    -diff
                } else {
                    diff
                };
                assert(keys[i as int] == Some(distance as int));
                let better = match best {
                    Some(_) => distance < best_distance,
                    None => true,
                };
                if better {
                    best = Some(i);
                    best_distance = distance;
                    best_target = target;
                }
            },
            None => {
                assert(keys[i as int] is None);
            },
        }
        i = i + 1;
    }
    proof {
        if !no_key(keys, columns@.len() as int) {
            assert(best is Some);
        }
    }
    best_target
}

/// A vertical direction between virtual workspaces.
#[derive(Clone, Copy, PartialEq, Eq, Debug, Structural)]
pub enum VerticalDirection {
    North,
    South,
}

/// Fingers moving down point South; natural scrolling reverses that, as
/// content follows the fingers.
pub open spec fn switch_direction(fingers_moved_down: bool, setting: SwipeGestureDirection) -> VerticalDirection {
    if fingers_moved_down == (setting == SwipeGestureDirection::Reversed) {
        VerticalDirection::South
    } else {
        VerticalDirection::North
    }
}

/// The virtual workspace a vertical swipe switches to.
pub fn virtual_switch_direction(fingers_moved_down: bool, setting: SwipeGestureDirection) -> (r:
    VerticalDirection)
    ensures
        r == switch_direction(fingers_moved_down, setting),
{
    let physical = if fingers_moved_down {
        VerticalDirection::South
    } else {
        VerticalDirection::North
    };
    match setting {
        SwipeGestureDirection::Natural => match physical {
            VerticalDirection::North => VerticalDirection::South,
            VerticalDirection::South => VerticalDirection::North,
        },
        SwipeGestureDirection::Reversed => physical,
    }
}

/// The latch of a vertical swipe: once a gesture has switched workspaces,
/// the rest of it is ignored until the fingers lift (no sample arrives for
/// the gesture timeout).
#[derive(Clone, Copy, PartialEq, Eq, Debug, Structural)]
pub struct VerticalLatch {
    /// This gesture has already switched workspaces.
    pub fired: bool,
}

/// What a frame of vertical swiping does before its samples are read.
#[derive(Clone, Copy, PartialEq, Eq, Debug, Structural)]
pub struct VerticalFrame {
    /// Start the accumulated motion over from zero: the last gesture ended.
    pub reset: bool,
    /// Add this frame's swipe samples to the accumulated motion.
    pub accumulate: bool,
}

/// The latch after a frame: a timed-out gesture re-opens it, and a frame
/// whose accumulated motion reached the threshold closes it.
pub open spec fn latch_after(fired: bool, timed_out: bool, reached: bool) -> bool {
    (fired && !timed_out) || reached
}

impl VerticalLatch {
    /// Opens the frame: a gesture that timed out ends (the latch re-opens
    /// and the accumulated motion restarts), and samples count only while
    /// the gesture has not fired.
    pub fn start_frame(&mut self, timed_out: bool) -> (r: VerticalFrame)
        ensures
            final(self).fired == (old(self).fired && !timed_out),
            r.reset == timed_out,
            r.accumulate == !final(self).fired,
    {
        if timed_out {
            self.fired = false;
        }
        VerticalFrame { reset: timed_out, accumulate: !self.fired }
    }

    /// Closes the frame: when the accumulated motion reached the threshold
    /// the workspace switches, the motion restarts from zero, and the
    /// gesture is latched. Returns whether it switches.
    pub fn end_frame(&mut self, reached: bool) -> (fire: bool)
        ensures
            fire == reached,
            final(self).fired == (old(self).fired || reached),
    {
        if reached {
            self.fired = true;
        }
        reached
    }
}

/// The latch after a run of frames, each given as whether the gesture timed
/// out before it and whether its motion reached the threshold.
pub open spec fn latch_through(fired: bool, frames: Seq<(bool, bool)>) -> bool
    decreases frames.len(),
{
    if frames.len() == 0 {
        fired
    } else {
        let prev = latch_through(fired, frames.drop_last());
        latch_after(prev, frames.last().0, frames.last().1)
    }
}

/// The swipe handling as a whole. What it decides by itself, before any
/// gesture is read, is whether swipes are handled at all.
pub struct ScrollEventsPlugin;

impl ScrollEventsPlugin {
    /// Whether swipe gestures are handled: not while Mission Control is
    /// showing (its state is `None` before it was ever seen).
    pub fn gestures_enabled(mission_control_active: Option<bool>) -> (r: bool)
        ensures
            r == (match mission_control_active {
                Some(active) => !active,
                None => true,
            }),
    {
        match mission_control_active {
            Some(active) => !active,
            None => true,
        }
    }
}


/// Holding an offset to the strip's bounds is stable: an offset already
/// held stays where it is, so applying the constraint every frame does not
/// drift the strip.
pub proof fn lemma_clamp_is_stable(
    current: int,
    last: Option<ColumnSample>,
    second: Option<ColumnSample>,
    viewport: Rect,
    continuous_swipe: bool,
)
    requires
        clamp_defined(last, second, viewport, continuous_swipe),
    ensures
        clamped_offset(current, last, second, viewport, continuous_swipe) matches Some(held)
            ==> clamped_offset(held, last, second, viewport, continuous_swipe) == Some(held),
{
}

/// Without continuous scrolling the strip snaps to the viewport's edges: a
/// strip wider than the viewport always covers it from edge to edge, and a
/// narrower one always lies wholly inside it.
pub proof fn lemma_strip_snaps_to_edges(
    current: int,
    last: ColumnSample,
    second: Option<ColumnSample>,
    viewport: Rect,
    continuous_swipe: bool,
)
    requires
        has_geometry(last),
        clamp_defined(Some(last), second, viewport, continuous_swipe),
        !continuous_bounds(last, second, continuous_swipe),
    ensures
        ({
            let total = strip_width_of(Some(last)).unwrap();
            let held = clamped_offset(current, Some(last), second, viewport, continuous_swipe).unwrap();
            &&& viewport.spec_width() < total ==> held <= viewport.min.x && held + total
                >= viewport.max.x
            &&& viewport.spec_width() >= total ==> held >= viewport.min.x && held + total
                <= viewport.max.x
        }),
{
}

/// The two direction settings send the same finger motion to opposite
/// virtual workspaces.
pub proof fn lemma_direction_settings_opposite(fingers_moved_down: bool)
    ensures
        switch_direction(fingers_moved_down, SwipeGestureDirection::Natural) != switch_direction(
            fingers_moved_down,
            SwipeGestureDirection::Reversed,
        ),
{
}

/// Whether a frame adds its swipe samples, given the latch before it and
/// whether the gesture timed out before it.
pub open spec fn accumulates(fired: bool, timed_out: bool) -> bool {
    !(fired && !timed_out)
}

/// A vertical swipe switches workspaces at most once per gesture: once it
/// has fired, every later frame of the same gesture (none timed out) finds
/// the latch closed and adds no motion, and the motion was restarted from
/// zero when it fired, so nothing can reach the threshold again until the
/// fingers lift.
pub proof fn lemma_vertical_swipe_fires_once(frames: Seq<(bool, bool)>)
    requires
        forall|i: int| 0 <= i < frames.len() ==> !(#[trigger] frames[i]).0,
    ensures
        latch_through(true, frames),
        forall|i: int|
            0 <= i < frames.len() ==> !accumulates(
                latch_through(true, #[trigger] frames.take(i)),
                frames[i].0,
            ),
    decreases frames.len(),
{
    if frames.len() > 0 {
        let init = frames.drop_last();
        assert forall|i: int| 0 <= i < init.len() implies !(#[trigger] init[i]).0 by {
            assert(init[i] == frames[i]);
        }
        lemma_vertical_swipe_fires_once(init);
        assert forall|i: int| 0 <= i < frames.len() implies !accumulates(
            latch_through(true, #[trigger] frames.take(i)),
            frames[i].0,
        ) by {
            assert(!frames[i].0);
            if i < init.len() {
                assert(frames.take(i) =~= init.take(i));
                assert(!accumulates(latch_through(true, init.take(i)), init[i].0));
            } else {
                assert(frames.take(i) =~= init);
            }
        }
    }
}

/// Snap intent outlasts the lift threshold: a pending snap gesture whose
/// samples pause past the lift threshold but within the snap timeout is
/// neither ended as an ordinary swipe nor released, so the strip is not
/// stranded; past the snap timeout it is released.
pub proof fn lemma_snap_outlasts_lift(scrolling: SwipeTracking, config: SwipeSettings, quiet_ns: u64)
    requires
        config.snap_to_window,
        is_snap_gesture_spec(scrolling, config),
    ensures
        FINGER_LIFT_THRESHOLD_NS < SNAP_GESTURE_TIMEOUT_NS,
        !settles(scrolling, config, quiet_ns),
        quiet_ns <= SNAP_GESTURE_TIMEOUT_NS ==> !snap_due(scrolling, config, false, quiet_ns),
        quiet_ns > SNAP_GESTURE_TIMEOUT_NS ==> snap_due(scrolling, config, false, quiet_ns),
        snap_due(scrolling, config, true, quiet_ns),
{
}

/// The window a swipe settles on is the one whose on-screen centre (its
/// offset in the strip, plus the strip's position, plus half its width) is
/// nearest the viewport's centre: no window with a known position is
/// nearer, and every column before it is farther.
pub proof fn lemma_nearest_is_closest_centre(
    columns: Seq<ColumnSample>,
    strip_x: int,
    viewport: Rect,
    i: int,
)
    requires
        is_first_min(
            center_distances(columns, strip_x, viewport.spec_center_x()),
            columns.len() as int,
            i,
        ),
    ensures
        0 <= i < columns.len(),
        columns[i].layout_x is Some && columns[i].width is Some,
        forall|j: int|
            0 <= j < columns.len() && (#[trigger] columns[j]).layout_x is Some && columns[j].width
                is Some ==> abs_int(
                columns[i].layout_x.unwrap() + strip_x + half(columns[i].width.unwrap() as int)
                    - viewport.spec_center_x(),
            ) <= abs_int(
                columns[j].layout_x.unwrap() + strip_x + half(columns[j].width.unwrap() as int)
                    - viewport.spec_center_x(),
            ),
        forall|j: int|
            0 <= j < i && (#[trigger] columns[j]).layout_x is Some && columns[j].width is Some
                ==> abs_int(
                columns[i].layout_x.unwrap() + strip_x + half(columns[i].width.unwrap() as int)
                    - viewport.spec_center_x(),
            ) < abs_int(
                columns[j].layout_x.unwrap() + strip_x + half(columns[j].width.unwrap() as int)
                    - viewport.spec_center_x(),
            ),
{
    let keys = center_distances(columns, strip_x, viewport.spec_center_x());
    assert forall|j: int|
        0 <= j < columns.len() && (#[trigger] columns[j]).layout_x is Some && columns[j].width
            is Some implies abs_int(
        columns[i].layout_x.unwrap() + strip_x + half(columns[i].width.unwrap() as int)
            - viewport.spec_center_x(),
    ) <= abs_int(
        columns[j].layout_x.unwrap() + strip_x + half(columns[j].width.unwrap() as int)
            - viewport.spec_center_x(),
    ) by {
        assert(keys[j] is Some);
    }
    assert forall|j: int|
        0 <= j < i && (#[trigger] columns[j]).layout_x is Some && columns[j].width is Some
            implies abs_int(
        columns[i].layout_x.unwrap() + strip_x + half(columns[i].width.unwrap() as int)
            - viewport.spec_center_x(),
    ) < abs_int(
        columns[j].layout_x.unwrap() + strip_x + half(columns[j].width.unwrap() as int)
            - viewport.spec_center_x(),
    ) by {
        assert(keys[j] is Some);
    }
}

/// The finger count a strip's tracking records follows the configured
/// swipe steps: a frame with such a step records its finger count, and a
/// frame with none (only native scroll steps, no touch-down or lift) keeps
/// the count it had, so a pending snap gesture is not forgotten. A lift
/// during a pending snap gesture keeps the count too.
pub proof fn lemma_finger_count_follows_swipe_steps(
    t: SwipeTracking,
    s: GestureSummary,
    config: SwipeSettings,
    focused: Option<EntityBits>,
)
    ensures
        ({
            let r = after_scroll(after_lift(after_touch_down(t, s, focused), s, config), s);
            &&& s.has_scroll_event && s.has_gesture_event ==> r.fingers_count == s.gesture_fingers
            &&& !s.has_gesture_event && !s.touchpad_down && !s.touchpad_up ==> r.fingers_count
                == t.fingers_count
            &&& !s.has_gesture_event && !s.touchpad_down && s.touchpad_up && config.snap_to_window
                && config.swipe_gesture_fingers is Some && t.fingers_count
                == config.swipe_gesture_fingers ==> r.fingers_count == t.fingers_count
            &&& s.has_scroll_event ==> r.is_user_swiping
        }),
{
}

/// Whether an event is a swipe step with the configured finger count.
pub open spec fn configured_swipe(e: GestureEvent, config: SwipeSettings) -> bool {
    e matches GestureEvent::Swipe { fingers } && config.swipe_gesture_fingers == Some(fingers)
}

/// What a frame's summary records, event by event: a touch-down or lift
/// when one of the events is one; a scroll when one is a native scroll step
/// or a configured swipe step; a gesture, with the configured finger count,
/// when one is a configured swipe step. Swipe steps with another finger
/// count, and other events, leave no mark at all.
pub proof fn lemma_summary_records_events(events: Seq<GestureEvent>, n: nat, config: SwipeSettings)
    requires
        n <= events.len(),
    ensures
        summary_of(events, n, config).touchpad_down <==> exists|i: int|
            0 <= i < n && #[trigger] events[i] == GestureEvent::TouchpadDown,
        summary_of(events, n, config).touchpad_up <==> exists|i: int|
            0 <= i < n && #[trigger] events[i] == GestureEvent::TouchpadUp,
        summary_of(events, n, config).has_gesture_event <==> exists|i: int|
            0 <= i < n && configured_swipe(#[trigger] events[i], config),
        summary_of(events, n, config).has_scroll_event <==> exists|i: int|
            0 <= i < n && (#[trigger] events[i] == GestureEvent::Scroll || configured_swipe(
                events[i],
                config,
            )),
        summary_of(events, n, config).gesture_fingers == (if summary_of(
            events,
            n,
            config,
        ).has_gesture_event {
            config.swipe_gesture_fingers
        } else {
            None::<usize>
        }),
    decreases n,
{
    if n > 0 {
        lemma_summary_records_events(events, (n - 1) as nat, config);
        let e = events[n - 1];
        let prev = summary_of(events, (n - 1) as nat, config);
        let cur = summary_of(events, n, config);
        if cur.touchpad_down && !prev.touchpad_down {
            assert(events[n - 1] == GestureEvent::TouchpadDown);
        }
        if cur.touchpad_down && prev.touchpad_down {
            let i = choose|i: int| 0 <= i < n - 1 && #[trigger] events[i] == GestureEvent::TouchpadDown;
            assert(0 <= i < n && events[i] == GestureEvent::TouchpadDown);
        }
        if cur.touchpad_up && !prev.touchpad_up {
            assert(events[n - 1] == GestureEvent::TouchpadUp);
        }
        if cur.touchpad_up && prev.touchpad_up {
            let i = choose|i: int| 0 <= i < n - 1 && #[trigger] events[i] == GestureEvent::TouchpadUp;
            assert(0 <= i < n && events[i] == GestureEvent::TouchpadUp);
        }
        if cur.has_gesture_event && !prev.has_gesture_event {
            assert(configured_swipe(events[n - 1], config));
        }
        if cur.has_gesture_event && prev.has_gesture_event {
            let i = choose|i: int| 0 <= i < n - 1 && configured_swipe(#[trigger] events[i], config);
            assert(0 <= i < n && configured_swipe(events[i], config));
        }
        if cur.has_scroll_event && !prev.has_scroll_event {
            assert(events[n - 1] == GestureEvent::Scroll || configured_swipe(events[n - 1], config));
        }
        if cur.has_scroll_event && prev.has_scroll_event {
            let i = choose|i: int|
                0 <= i < n - 1 && (#[trigger] events[i] == GestureEvent::Scroll || configured_swipe(
                    events[i],
                    config,
                ));
            assert(0 <= i < n && (events[i] == GestureEvent::Scroll || configured_swipe(
                events[i],
                config,
            )));
        }
        assert forall|i: int| 0 <= i < n && #[trigger] events[i] == GestureEvent::TouchpadDown implies cur.touchpad_down by {
            if i < n - 1 {
                assert(prev.touchpad_down);
            }
        }
        assert forall|i: int| 0 <= i < n && #[trigger] events[i] == GestureEvent::TouchpadUp implies cur.touchpad_up by {
            if i < n - 1 {
                assert(prev.touchpad_up);
            }
        }
        assert forall|i: int| 0 <= i < n && configured_swipe(#[trigger] events[i], config) implies cur.has_gesture_event by {
            if i < n - 1 {
                assert(prev.has_gesture_event);
            }
        }
        assert forall|i: int|
            0 <= i < n && (#[trigger] events[i] == GestureEvent::Scroll || configured_swipe(
                events[i],
                config,
            )) implies cur.has_scroll_event by {
            if i < n - 1 {
                assert(prev.has_scroll_event);
            }
        }
    }
}

/// Swipe steps with another finger count than the configured one (a
/// system gesture, say) and unrelated events leave the summary untouched:
/// a frame of only those neither scrolls nor touches the strip.
pub proof fn lemma_foreign_swipes_leave_no_mark(events: Seq<GestureEvent>, config: SwipeSettings)
    requires
        forall|i: int|
            0 <= i < events.len() ==> #[trigger] events[i] == GestureEvent::Other || (
            events[i] matches GestureEvent::Swipe { fingers } && config.swipe_gesture_fingers
                != Some(fingers)),
    ensures
        summary_of(events, events.len(), config) == (GestureSummary {
            touchpad_down: false,
            touchpad_up: false,
            has_scroll_event: false,
            has_gesture_event: false,
            gesture_fingers: None,
        }),
{
    lemma_summary_records_events(events, events.len(), config);
    let s = summary_of(events, events.len(), config);
    if s.touchpad_down {
        let i = choose|i: int| 0 <= i < events.len() && #[trigger] events[i] == GestureEvent::TouchpadDown;
        assert(events[i] == GestureEvent::Other || events[i] is Swipe);
    }
    if s.touchpad_up {
        let i = choose|i: int| 0 <= i < events.len() && #[trigger] events[i] == GestureEvent::TouchpadUp;
        assert(events[i] == GestureEvent::Other || events[i] is Swipe);
    }
    if s.has_scroll_event {
        let i = choose|i: int|
            0 <= i < events.len() && (#[trigger] events[i] == GestureEvent::Scroll || configured_swipe(
                events[i],
                config,
            ));
        assert(events[i] == GestureEvent::Other || events[i] is Swipe);
    }
    if s.has_gesture_event {
        let i = choose|i: int| 0 <= i < events.len() && configured_swipe(#[trigger] events[i], config);
        assert(events[i] == GestureEvent::Other || events[i] is Swipe);
    }
}

} // verus!
