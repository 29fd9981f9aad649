use paneru::geometry::{Point, Rect};
use paneru::scroll::{
    centered_strip_position, clamp_viewport_offset, finish_snap, nearest_window, release_step,
    release_target, settle_after_lift, snap_release_due, snap_target, snap_target_offset, summarize_gestures,
    track_swipe, virtual_switch_direction, ColumnSample, GestureEvent, GestureSummary,
    FlingStart, SwipeGestureDirection, FINGER_LIFT_THRESHOLD_NS, SNAP_GESTURE_TIMEOUT_NS, SwipeSettings, SwipeTracking, VerticalDirection,
    VerticalLatch,
};
use paneru::{is_snap_gesture, ScrollEventsPlugin};

fn settings() -> SwipeSettings {
    SwipeSettings {
        snap_to_window: true,
        swipe_gesture_fingers: Some(3),
        swipe_gesture_direction: SwipeGestureDirection::Natural,
        continuous_swipe: false,
        auto_center: true,
    }
}

fn tracking(fingers: Option<usize>) -> SwipeTracking {
    SwipeTracking { is_user_swiping: true, fingers_count: fingers, started_focused: Some(4) }
}

fn viewport() -> Rect {
    Rect { min: Point::new(0, 25), max: Point::new(1024, 768) }
}

fn column(entity: u64, x: i32) -> ColumnSample {
    ColumnSample { entity, layout_x: Some(x), width: Some(400) }
}

#[test]
fn snap_gesture_needs_the_configured_fingers_and_snapping() {
    let config = settings();
    assert!(is_snap_gesture(&tracking(Some(3)), &config));
    assert!(!is_snap_gesture(&tracking(Some(4)), &config));
    assert!(!is_snap_gesture(&tracking(None), &config));
    let off = SwipeSettings { snap_to_window: false, ..config };
    assert!(!is_snap_gesture(&tracking(Some(3)), &off));
    let disabled = SwipeSettings { swipe_gesture_fingers: None, ..config };
    assert!(!is_snap_gesture(&tracking(None), &disabled));
}

#[test]
fn gestures_summarised_per_frame() {
    let config = settings();
    let events = [
        GestureEvent::TouchpadDown,
        GestureEvent::Swipe { fingers: 4 },
        GestureEvent::Other,
        GestureEvent::Swipe { fingers: 3 },
    ];
    assert_eq!(
        summarize_gestures(&events, &config),
        GestureSummary {
            touchpad_down: true,
            touchpad_up: false,
            has_scroll_event: true,
            has_gesture_event: true,
            gesture_fingers: Some(3),
        }
    );
    let scroll_only = [GestureEvent::Scroll, GestureEvent::TouchpadUp];
    assert_eq!(
        summarize_gestures(&scroll_only, &config),
        GestureSummary {
            touchpad_down: false,
            touchpad_up: true,
            has_scroll_event: true,
            has_gesture_event: false,
            gesture_fingers: None,
        }
    );
}

#[test]
fn touch_down_restarts_tracking_and_lift_ends_non_snap_gesture() {
    let config = settings();
    let down = GestureSummary {
        touchpad_down: true,
        touchpad_up: false,
        has_scroll_event: false,
        has_gesture_event: false,
        gesture_fingers: None,
    };
    let idle = SwipeTracking { is_user_swiping: false, fingers_count: Some(3), started_focused: None };
    assert_eq!(
        track_swipe(Some(idle), &down, &config, Some(9)),
        Some(SwipeTracking { is_user_swiping: true, fingers_count: None, started_focused: Some(9) })
    );
    assert_eq!(track_swipe(None, &down, &config, Some(9)), None);

    let up = GestureSummary { touchpad_down: false, touchpad_up: true, ..down };
    assert_eq!(
        track_swipe(Some(tracking(Some(2))), &up, &config, None),
        Some(SwipeTracking { is_user_swiping: false, fingers_count: None, started_focused: None })
    );
    assert_eq!(track_swipe(Some(tracking(Some(3))), &up, &config, None), Some(tracking(Some(3))));
}

#[test]
fn scrolling_starts_or_continues_a_swipe() {
    let config = settings();
    let swipe = GestureSummary {
        touchpad_down: false,
        touchpad_up: false,
        has_scroll_event: true,
        has_gesture_event: true,
        gesture_fingers: Some(3),
    };
    assert_eq!(
        track_swipe(None, &swipe, &config, Some(1)),
        Some(SwipeTracking { is_user_swiping: true, fingers_count: Some(3), started_focused: Some(1) })
    );
    let still = SwipeTracking { is_user_swiping: false, fingers_count: None, started_focused: Some(2) };
    assert_eq!(
        track_swipe(Some(still), &swipe, &config, Some(1)),
        Some(SwipeTracking { is_user_swiping: true, fingers_count: Some(3), started_focused: Some(2) })
    );
    let nothing = GestureSummary { has_scroll_event: false, has_gesture_event: false, ..swipe };
    assert_eq!(track_swipe(Some(still), &nothing, &config, Some(1)), Some(still));
}

#[test]
fn snap_happens_on_release_or_timeout_and_resets_tracking() {
    let config = settings();
    let mut t = tracking(Some(3));
    assert!(snap_release_due(&t, &config, true, 0));
    assert!(snap_release_due(&t, &config, false, 150_000_001));
    assert!(!snap_release_due(&t, &config, false, 150_000_000));
    assert!(!snap_release_due(&t, &config, false, 60_000_000));
    assert!(!snap_release_due(&tracking(Some(2)), &config, true, 200_000_000));
    finish_snap(&mut t);
    assert_eq!(t, SwipeTracking { is_user_swiping: false, fingers_count: None, started_focused: None });
}

#[test]
fn lift_timeout_ends_swiping_unless_a_snap_is_pending() {
    let config = settings();
    let mut t = tracking(Some(2));
    assert!(!settle_after_lift(&mut t, &config, 50_000_000));
    assert!(t.is_user_swiping);
    assert!(settle_after_lift(&mut t, &config, 50_000_001));
    assert!(!t.is_user_swiping);
    assert_eq!(t.fingers_count, Some(2));
    // A pending snap outlasts the lift threshold.
    let mut snap = tracking(Some(3));
    assert!(!settle_after_lift(&mut snap, &config, 100_000_000));
    assert!(snap.is_user_swiping);
    assert!(!snap_release_due(&snap, &config, false, 100_000_000));
    assert!(FINGER_LIFT_THRESHOLD_NS < SNAP_GESTURE_TIMEOUT_NS);
}

#[test]
fn nearest_window_to_viewport_centre() {
    let columns = [
        column(1, 0),
        column(2, 400),
        ColumnSample { entity: 3, layout_x: None, width: Some(400) },
        column(4, 800),
    ];
    assert_eq!(nearest_window(&columns, 0, &viewport()), Some(2));
    assert_eq!(nearest_window(&columns, -400, &viewport()), Some(4));
    let tie = [column(5, 112), column(6, 112)];
    assert_eq!(nearest_window(&tie, 0, &viewport()), Some(5));
    let unknown = [ColumnSample { entity: 7, layout_x: Some(0), width: None }];
    assert_eq!(nearest_window(&unknown, 0, &viewport()), None);
}

#[test]
fn wide_strip_covers_and_narrow_strip_stays_inside() {
    let vp = viewport();
    let wide = Some(column(3, 800));
    assert_eq!(clamp_viewport_offset(-300, wide, None, &vp, false), Some(-176));
    assert_eq!(clamp_viewport_offset(50, wide, None, &vp, false), Some(0));
    assert_eq!(clamp_viewport_offset(-100, wide, None, &vp, false), Some(-100));
    let narrow = Some(column(2, 400));
    assert_eq!(clamp_viewport_offset(-10, narrow, None, &vp, false), Some(0));
    assert_eq!(clamp_viewport_offset(500, narrow, None, &vp, false), Some(224));
    assert_eq!(clamp_viewport_offset(5, None, None, &vp, false), None);
    let no_width = Some(ColumnSample { entity: 1, layout_x: Some(800), width: None });
    assert_eq!(clamp_viewport_offset(5, no_width, None, &vp, false), None);
}

#[test]
fn continuous_swipe_clamps_to_snap_points() {
    let vp = viewport();
    let last = Some(column(3, 800));
    let second = Some(column(2, 400));
    assert_eq!(clamp_viewport_offset(-900, last, second, &vp, true), Some(-800));
    assert_eq!(clamp_viewport_offset(700, last, second, &vp, true), Some(624));
    assert_eq!(clamp_viewport_offset(-300, last, None, &vp, true), Some(-176));
}

#[test]
fn centring_a_window_within_bounds() {
    let vp = viewport();
    let last = Some(column(3, 800));
    let target = column(2, 400);
    assert_eq!(
        centered_strip_position(target, last, None, Point::new(0, 25), &vp, false),
        Some(Point::new(-88, 25))
    );
    let first = column(1, 0);
    assert_eq!(
        centered_strip_position(first, last, None, Point::new(-50, 25), &vp, false),
        Some(Point::new(0, 25))
    );
    assert_eq!(
        centered_strip_position(first, None, None, Point::new(-50, 25), &vp, false),
        Some(Point::new(312, 25))
    );
    let unknown = ColumnSample { entity: 9, layout_x: None, width: None };
    assert_eq!(centered_strip_position(unknown, last, None, Point::new(0, 25), &vp, false), None);
}

#[test]
fn snap_prefers_release_target_then_nearest() {
    let vp = viewport();
    let columns = [column(1, 0), column(2, 400), column(3, 800)];
    let last = Some(column(3, 800));
    let here = Point::new(0, 25);
    assert_eq!(
        snap_target(Some(column(3, 800)), &columns, here, last, None, &vp, false),
        Some((3, Point::new(-176, 25)))
    );
    let unknown = ColumnSample { entity: 3, layout_x: None, width: None };
    assert_eq!(
        snap_target(Some(unknown), &columns, here, last, None, &vp, false),
        Some((2, Point::new(-88, 25)))
    );
    assert_eq!(snap_target(None, &[], here, last, None, &vp, false), None);
}

#[test]
fn fling_moves_one_column_toward_the_momentum() {
    assert_eq!(release_step(2, 1, 20, Some(10), Some(30)), 10);
    assert_eq!(release_step(2, 0, 20, None, Some(30)), 20);
    assert_eq!(release_step(2, 2, 20, Some(10), Some(30)), 20);
    assert_eq!(release_step(2, 4, 20, Some(10), Some(30)), 30);
    assert_eq!(release_step(2, 4, 20, Some(10), None), 20);
}

#[test]
fn resting_strip_drawn_to_nearest_centring_offset() {
    let columns = [
        column(1, 0),
        ColumnSample { entity: 2, layout_x: Some(400), width: None },
        column(3, 800),
    ];
    assert_eq!(snap_target_offset(&columns, 512, 0), 112);
    assert_eq!(snap_target_offset(&columns, 512, -200), -488);
    assert_eq!(snap_target_offset(&columns, 512, 250), 312);
    assert_eq!(snap_target_offset(&[], 512, -33), -33);
}

#[test]
fn vertical_swipe_direction() {
    assert_eq!(
        virtual_switch_direction(true, SwipeGestureDirection::Natural),
        VerticalDirection::North
    );
    assert_eq!(
        virtual_switch_direction(false, SwipeGestureDirection::Natural),
        VerticalDirection::South
    );
    assert_eq!(
        virtual_switch_direction(true, SwipeGestureDirection::Reversed),
        VerticalDirection::South
    );
    assert_eq!(
        virtual_switch_direction(false, SwipeGestureDirection::Reversed),
        VerticalDirection::North
    );
}

#[test]
fn gestures_off_while_mission_control_shows() {
    assert!(ScrollEventsPlugin::gestures_enabled(None));
    assert!(ScrollEventsPlugin::gestures_enabled(Some(false)));
    assert!(!ScrollEventsPlugin::gestures_enabled(Some(true)));
}

#[test]
fn release_target_follows_the_fling() {
    let start = FlingStart {
        entity: 20,
        index: 1,
        left_neighbour: Some(10),
        right_neighbour: Some(30),
    };
    // Slow release or no starting window: the nearest window.
    assert_eq!(release_target(Some(40), false, Some(start), Some(3)), Some(40));
    assert_eq!(release_target(Some(40), true, None, Some(3)), Some(40));
    // No window has a position: nothing.
    assert_eq!(release_target(None, true, Some(start), Some(3)), None);
    // A fling moves one column toward the projection.
    assert_eq!(release_target(Some(40), true, Some(start), Some(3)), Some(30));
    assert_eq!(release_target(Some(40), true, Some(start), Some(0)), Some(10));
    assert_eq!(release_target(Some(40), true, Some(start), Some(1)), Some(20));
    let edge = FlingStart { left_neighbour: None, ..start };
    assert_eq!(release_target(Some(40), true, Some(edge), Some(0)), Some(20));
    assert_eq!(release_target(Some(40), true, Some(start), None), None);
}

#[test]
fn vertical_swipe_switches_once_per_gesture() {
    let mut latch = VerticalLatch { fired: false };
    let frame = latch.start_frame(false);
    assert!(!frame.reset && frame.accumulate);
    assert!(latch.end_frame(true));
    // The rest of the gesture adds nothing.
    let frame = latch.start_frame(false);
    assert!(!frame.accumulate);
    assert!(!latch.end_frame(false));
    // The fingers lift: a new gesture starts over.
    let frame = latch.start_frame(true);
    assert!(frame.reset && frame.accumulate);
    assert!(!latch.fired);
}
