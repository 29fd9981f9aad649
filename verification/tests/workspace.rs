use paneru::workspace::{
    observed_change, observed_notifications, NotificationCenter, NotificationKind, ObservedChange,
};
use paneru::Ivars;

#[test]
fn observer_holds_its_sender() {
    let ivars = Ivars::new(17u8);
    assert_eq!(*ivars.events(), 17);
}

#[test]
fn observer_registers_for_every_notification() {
    let subs = observed_notifications();
    assert_eq!(subs.len(), 9);
    assert_eq!(subs[0].name, "NSWorkspaceActiveDisplayDidChangeNotification");
    assert_eq!(subs[0].kind, NotificationKind::DisplayChanged);
    assert_eq!(subs[6].center, NotificationCenter::Distributed);
    assert_eq!(subs[6].name, "AppleInterfaceThemeChangedNotification");
    assert_eq!(subs[7].name, "com.apple.dock.prefchanged");
    assert_eq!(subs[8].center, NotificationCenter::Default);
    assert_eq!(subs[8].kind, NotificationKind::DockRestarted);
    let workspace = subs.iter().filter(|s| s.center == NotificationCenter::Workspace).count();
    assert_eq!(workspace, 5);
}

#[test]
fn launch_finished_when_flag_turns_on() {
    assert_eq!(observed_change("finishedLaunching", Some(1), 0), ObservedChange::FinishedLaunching);
    assert_eq!(observed_change("finishedLaunching", None, 0), ObservedChange::FinishedLaunching);
    assert_eq!(observed_change("finishedLaunching", Some(0), 0), ObservedChange::Ignore);
}

#[test]
fn activation_policy_change_is_recorded() {
    assert_eq!(observed_change("activationPolicy", Some(2), 2), ObservedChange::Ignore);
    assert_eq!(
        observed_change("activationPolicy", Some(0), 2),
        ObservedChange::PolicyChanged { policy: 0 }
    );
    assert_eq!(
        observed_change("activationPolicy", Some(1), isize::MAX),
        ObservedChange::PolicyChanged { policy: 1 }
    );
    assert_eq!(observed_change("somethingElse", None, 0), ObservedChange::UnknownKeyPath);
}
