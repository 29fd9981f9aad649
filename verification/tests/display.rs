use paneru::display::{
    display_addition, display_change_activation, display_relocation, display_removal,
    displays_to_activate, find_display, orphaned_strips, others_marked, rearrangements,
    reparent_plan, DisplayAddition, DisplayEntry, DisplayEvent, DisplayRetries, Marked,
    PresentDisplay, Rearrangement, StripAction, StripEntry,
};
use paneru::geometry::Point;
use paneru::FloatingLayer;

#[test]
fn toggle_floating_layer_flips_state() {
    let layer = FloatingLayer::default();
    assert_eq!(layer, FloatingLayer::Front);
    let layer = layer.flipped();
    assert_eq!(layer, FloatingLayer::Behind);
    let layer = layer.flipped();
    assert_eq!(layer, FloatingLayer::Front);
}

#[test]
fn only_the_new_holder_keeps_the_marker() {
    let items = [
        Marked { entity: 1, marked: true },
        Marked { entity: 2, marked: false },
        Marked { entity: 3, marked: true },
        Marked { entity: 4, marked: true },
    ];
    assert_eq!(others_marked(&items, 3), vec![1, 4]);
    assert_eq!(others_marked(&items, 9), vec![1, 3, 4]);
}

#[test]
fn active_display_gets_marked() {
    let displays = [
        DisplayEntry { entity: 10, display_id: 1, active: false },
        DisplayEntry { entity: 11, display_id: 2, active: false },
        DisplayEntry { entity: 12, display_id: 2, active: true },
    ];
    assert_eq!(displays_to_activate(&displays, 2), vec![11]);
    assert_eq!(displays_to_activate(&displays, 3), Vec::<u64>::new());
}

#[test]
fn missing_display_is_retried_once() {
    let mut retries = DisplayRetries::default();
    assert!(retries.on_missing(5));
    assert!(!retries.on_missing(5));
    assert!(retries.on_missing(5));
    assert!(retries.on_missing(6));
}

#[test]
fn removed_display_orphans_its_strips() {
    let strips = [
        StripEntry { id: 1, entity: 20, parent: Some(10) },
        StripEntry { id: 2, entity: 21, parent: Some(11) },
        StripEntry { id: 3, entity: 22, parent: None },
        StripEntry { id: 4, entity: 23, parent: Some(10) },
    ];
    assert_eq!(orphaned_strips(&strips, 10), vec![20, 23]);
    assert_eq!(orphaned_strips(&strips, 12), Vec::<u64>::new());
}

#[test]
fn moved_display_gets_all_its_workspaces() {
    let strips = [
        StripEntry { id: 1, entity: 20, parent: Some(10) },
        StripEntry { id: 2, entity: 21, parent: Some(11) },
        StripEntry { id: 3, entity: 22, parent: None },
        StripEntry { id: 2, entity: 23, parent: Some(10) },
    ];
    assert_eq!(
        reparent_plan(&[1, 2, 3, 5], &strips, 10, Point::new(-1920, 0)),
        vec![
            StripAction::ClearTimeout(21),
            StripAction::Attach { strip: 21, display: 10 },
            StripAction::RefreshSizes(21),
            StripAction::ClearTimeout(22),
            StripAction::Attach { strip: 22, display: 10 },
            StripAction::RefreshSizes(22),
            StripAction::Spawn { id: 5, display: 10, origin: Point::new(-1920, 0) },
        ]
    );
    assert_eq!(reparent_plan(&[], &strips, 10, Point::new(0, 0)), vec![]);
}

#[test]
fn only_display_events_rearrange() {
    let events = [
        DisplayEvent::Other,
        DisplayEvent::Added(3),
        DisplayEvent::Moved(1),
        DisplayEvent::Other,
        DisplayEvent::Removed(2),
    ];
    assert_eq!(
        rearrangements(&events),
        vec![
            Rearrangement::Add(3),
            Rearrangement::Move(1),
            Rearrangement::Remove(2),
        ]
    );
    assert_eq!(rearrangements(&[DisplayEvent::Other]), vec![]);
}

fn displays() -> [DisplayEntry; 3] {
    [
        DisplayEntry { entity: 10, display_id: 1, active: true },
        DisplayEntry { entity: 11, display_id: 2, active: false },
        DisplayEntry { entity: 12, display_id: 2, active: false },
    ]
}

fn strips() -> [StripEntry; 3] {
    [
        StripEntry { id: 1, entity: 20, parent: Some(11) },
        StripEntry { id: 2, entity: 21, parent: Some(10) },
        StripEntry { id: 3, entity: 22, parent: Some(11) },
    ]
}

#[test]
fn display_change_marks_only_on_a_change() {
    let d = displays();
    assert_eq!(display_change_activation(&[DisplayEvent::Other], &d, Some(2)), None);
    assert_eq!(display_change_activation(&[DisplayEvent::Changed], &d, None), None);
    assert_eq!(
        display_change_activation(&[DisplayEvent::Other, DisplayEvent::Changed], &d, Some(2)),
        Some(vec![11, 12])
    );
    assert_eq!(display_change_activation(&[DisplayEvent::Changed], &d, Some(1)), Some(vec![]));
}

#[test]
fn displays_are_found_by_their_first_entity() {
    let d = displays();
    assert_eq!(find_display(&d, 2), Some(1));
    assert_eq!(find_display(&d, 9), None);
}

#[test]
fn removing_an_unknown_display_does_nothing() {
    let d = displays();
    let s = strips();
    assert_eq!(display_removal(&d, &s, 9), None);
    let removal = display_removal(&d, &s, 2).unwrap();
    assert_eq!(removal.display, 11);
    let orphans: Vec<(u64, u64, u64, &str)> = removal
        .orphans
        .iter()
        .map(|o| (o.strip, o.id, o.timeout_secs, o.message.as_str()))
        .collect();
    assert_eq!(
        orphans,
        vec![
            (20, 1, 30, "Orphaned strip 1 could not be re-inserted after 30s."),
            (22, 3, 30, "Orphaned strip 3 could not be re-inserted after 30s."),
        ]
    );
}

#[test]
fn moved_display_is_rehomed_from_its_listing() {
    let d = displays();
    let s = strips();
    let present = [
        PresentDisplay { id: 1, origin: Point::new(0, 0), workspace_ids: vec![2] },
        PresentDisplay { id: 2, origin: Point::new(1440, 25), workspace_ids: vec![2, 4] },
    ];
    let moved = display_relocation(&d, &present, &s, 2).unwrap();
    assert_eq!(moved.display, 11);
    assert_eq!(moved.present_index, 1);
    assert_eq!(
        moved.actions,
        vec![
            StripAction::ClearTimeout(21),
            StripAction::Attach { strip: 21, display: 11 },
            StripAction::RefreshSizes(21),
            StripAction::Spawn { id: 4, display: 11, origin: Point::new(1440, 25) },
        ]
    );
    assert!(display_relocation(&d, &present, &s, 9).is_none());
    assert!(display_relocation(&d, &present[..1], &s, 2).is_none());
}

#[test]
fn added_display_is_found_or_retried_once() {
    let present = [PresentDisplay { id: 5, origin: Point::new(0, 0), workspace_ids: vec![1] }];
    let mut retries = DisplayRetries::default();
    assert_eq!(display_addition(&mut retries, &present, 5), DisplayAddition::Found(0));
    assert_eq!(
        display_addition(&mut retries, &present, 6),
        DisplayAddition::Retry { after_secs: 5 }
    );
    assert_eq!(display_addition(&mut retries, &present, 6), DisplayAddition::GiveUp);
    assert_eq!(
        display_addition(&mut retries, &present, 6),
        DisplayAddition::Retry { after_secs: 5 }
    );
}

#[test]
fn large_strip_ids_are_written_in_full() {
    let displays = [DisplayEntry { entity: 1, display_id: 7, active: false }];
    let strips = [StripEntry { id: 1234567890123, entity: 2, parent: Some(1) }];
    let removal = display_removal(&displays, &strips, 7).unwrap();
    assert_eq!(
        removal.orphans[0].message,
        "Orphaned strip 1234567890123 could not be re-inserted after 30s."
    );
}
