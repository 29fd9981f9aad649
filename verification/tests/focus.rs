use bevy::ecs::world::World;
use paneru::focus::{
    autocenter_plan, mouse_warp_point, needs_reconcile, recovery_target, sole_frontmost,
    stray_events_for, strip_to_activate, AppEntry, AutocenterPlan, FocusFlags, FocusedWindow,
    StrayFocus, StripMembership,
};
use paneru::geometry::{Point, Rect};
use paneru::{FocusHistory, Unmanaged};

#[test]
fn record_and_read_per_tier() {
    let mut world = World::new();
    let managed = world.spawn(()).id().to_bits();
    let floating = world.spawn(()).id().to_bits();
    let mut history = FocusHistory::default();

    history.record(1, managed, None);
    history.record(1, floating, Some(&Unmanaged::Floating));

    assert_eq!(history.last_managed(1), Some(managed));
    assert_eq!(history.last_floating(1), Some(floating));
}

#[test]
fn record_ignores_minimized_and_hidden() {
    let mut world = World::new();
    let entity = world.spawn(()).id().to_bits();
    let mut history = FocusHistory::default();

    history.record(1, entity, Some(&Unmanaged::Minimized));
    history.record(1, entity, Some(&Unmanaged::Hidden));

    assert_eq!(history.last_managed(1), None);
    assert_eq!(history.last_floating(1), None);
}

#[test]
fn per_workspace_isolation() {
    let mut world = World::new();
    let a = world.spawn(()).id().to_bits();
    let b = world.spawn(()).id().to_bits();
    let mut history = FocusHistory::default();

    history.record(1, a, None);
    history.record(2, b, None);

    assert_eq!(history.last_managed(1), Some(a));
    assert_eq!(history.last_managed(2), Some(b));
}

#[test]
fn forget_clears_entity_across_workspaces() {
    let mut world = World::new();
    let target = world.spawn(()).id().to_bits();
    let other = world.spawn(()).id().to_bits();
    let mut history = FocusHistory::default();

    history.record(1, target, None);
    history.record(2, target, Some(&Unmanaged::Floating));
    history.record(2, other, None);

    history.forget(target);

    assert_eq!(history.last_managed(1), None);
    assert_eq!(history.last_floating(2), None);
    assert_eq!(history.last_managed(2), Some(other));
}

#[test]
fn forget_workspace_drops_entry() {
    let mut world = World::new();
    let entity = world.spawn(()).id().to_bits();
    let mut history = FocusHistory::default();

    history.record(1, entity, None);
    history.forget_workspace(1);

    assert_eq!(history.last_managed(1), None);
}

#[test]
fn recording_again_replaces_the_tier_only() {
    let mut history = FocusHistory::default();
    history.record(7, 10, None);
    history.record(7, 11, Some(&Unmanaged::Floating));
    history.record(7, 12, None);
    assert_eq!(history.last_managed(7), Some(12));
    assert_eq!(history.last_floating(7), Some(11));
    assert_eq!(history.last_managed(8), None);
}

#[test]
fn forget_keeps_other_entities_and_workspaces() {
    let mut history = FocusHistory::default();
    history.record(1, 5, None);
    history.record(1, 6, Some(&Unmanaged::Floating));
    history.record(2, 6, None);
    history.forget(6);
    assert_eq!(history.last_managed(1), Some(5));
    assert_eq!(history.last_floating(1), None);
    assert_eq!(history.last_managed(2), None);
    history.forget_workspace(3);
    assert_eq!(history.last_managed(1), Some(5));
}

#[test]
fn keyboard_focus_reenables_reshuffle() {
    let mut flags = FocusFlags { skip_reshuffle: true, ffm_flag: None };
    flags.on_focus_changed();
    assert_eq!(flags, FocusFlags { skip_reshuffle: false, ffm_flag: None });

    let mut flags = FocusFlags { skip_reshuffle: true, ffm_flag: Some(4) };
    flags.on_focus_changed();
    assert_eq!(flags, FocusFlags { skip_reshuffle: true, ffm_flag: None });
}

#[test]
fn autocenter_centres_tiled_window() {
    let window = FocusedWindow { tiled: true, width: Some(401), origin: Some(Point::new(0, 25)) };
    assert_eq!(
        autocenter_plan(false, false, false, true, window, 512),
        AutocenterPlan::CenterAndReshuffle { origin: Point::new(312, 25) }
    );
    assert_eq!(autocenter_plan(false, false, false, false, window, 512), AutocenterPlan::Reshuffle);
    let floating = FocusedWindow { tiled: false, ..window };
    assert_eq!(autocenter_plan(false, false, false, true, floating, 512), AutocenterPlan::Reshuffle);
    assert_eq!(autocenter_plan(true, false, false, true, window, 512), AutocenterPlan::Skip);
    assert_eq!(autocenter_plan(false, true, false, true, window, 512), AutocenterPlan::Skip);
    assert_eq!(autocenter_plan(false, false, true, true, window, 512), AutocenterPlan::Skip);
}

#[test]
fn mouse_warps_to_centre_of_visible_part() {
    let display = Rect { min: Point::new(0, 0), max: Point::new(1024, 768) };
    let frame = Rect { min: Point::new(800, 100), max: Point::new(1200, 300) };
    assert_eq!(
        mouse_warp_point(false, true, false, None, 3, Some(frame), Some(display)),
        Some(Point::new(912, 200))
    );
    assert_eq!(mouse_warp_point(false, true, false, Some(3), 3, Some(frame), Some(display)), None);
    assert_eq!(
        mouse_warp_point(false, true, false, Some(2), 3, Some(frame), Some(display)),
        Some(Point::new(912, 200))
    );
    assert_eq!(mouse_warp_point(true, true, false, None, 3, Some(frame), Some(display)), None);
    assert_eq!(mouse_warp_point(false, false, false, None, 3, Some(frame), Some(display)), None);
    assert_eq!(mouse_warp_point(false, true, true, None, 3, Some(frame), Some(display)), None);
    assert_eq!(mouse_warp_point(false, true, false, None, 3, None, Some(display)), None);
}

#[test]
fn first_inactive_strip_holding_window_is_activated() {
    let strips = [
        StripMembership { entity: 1, contains: false, active: false },
        StripMembership { entity: 2, contains: true, active: true },
        StripMembership { entity: 3, contains: true, active: false },
        StripMembership { entity: 4, contains: true, active: false },
    ];
    assert_eq!(strip_to_activate(&strips), Some(3));
    assert_eq!(strip_to_activate(&strips[..2]), None);
}

#[test]
fn lost_focus_recovers_to_first_column() {
    assert_eq!(recovery_target(None, Some(9)), Some(9));
    assert_eq!(recovery_target(Some(1), Some(9)), None);
    assert_eq!(recovery_target(None, None), None);
}

#[test]
fn frontmost_must_be_unique() {
    let one = [
        AppEntry { entity: 1, frontmost: false },
        AppEntry { entity: 2, frontmost: true },
    ];
    assert_eq!(sole_frontmost(&one), Some(2));
    let two = [
        AppEntry { entity: 1, frontmost: true },
        AppEntry { entity: 2, frontmost: true },
    ];
    assert_eq!(sole_frontmost(&two), None);
    assert_eq!(sole_frontmost(&[]), None);
    assert!(needs_reconcile(false, false, Some(1), 2));
    assert!(!needs_reconcile(false, false, Some(2), 2));
    assert!(needs_reconcile(false, false, None, 2));
    assert!(!needs_reconcile(true, false, None, 2));
    assert!(!needs_reconcile(false, true, None, 2));
}

#[test]
fn stray_focus_events_replayed_for_their_window() {
    let events = [
        StrayFocus { entity: 20, window_id: 5 },
        StrayFocus { entity: 21, window_id: 6 },
        StrayFocus { entity: 22, window_id: 5 },
    ];
    assert_eq!(stray_events_for(&events, 5), vec![20, 22]);
    assert_eq!(stray_events_for(&events, 7), Vec::<u64>::new());
}
