//! What the workspace observer listens for, and how it reads a change in
//! an application's launch state.
use vstd::prelude::*;

verus! {

/// The instance variables of the Objective-C workspace observer: the sender
/// it dispatches events on.
pub struct Ivars<S> {
    events: S,
}

impl<S> Ivars<S> {
    pub fn new(events: S) -> (r: Self)
        ensures
            r.events_spec() == events,
    {
        Ivars { events }
    }

    pub closed spec fn events_spec(&self) -> S {
        self.events
    }

    /// The sender events are dispatched on.
    pub fn events(&self) -> (r: &S)
        ensures
            *r == self.events_spec(),
    {
        &self.events
    }
}

/// A notification centre the observer registers with.
#[derive(Clone, Copy, PartialEq, Eq, Debug, Structural)]
pub enum NotificationCenter {
    /// The shared workspace's centre.
    Workspace,
    /// The distributed centre, for system-wide appearance and Dock changes.
    Distributed,
    /// The process's default centre.
    Default,
}

/// What a notification reports.
#[derive(Clone, Copy, PartialEq, Eq, Debug, Structural)]
pub enum NotificationKind {
    DisplayChanged,
    SpaceChanged,
    ApplicationHidden,
    ApplicationUnhidden,
    SystemWoke,
    MenuBarHidingChanged,
    ThemeChanged,
    DockPrefChanged,
    DockRestarted,
}

/// One registration: the named notification, in the given centre, is
/// handled as `kind`.
#[derive(Clone, Copy, PartialEq, Eq, Debug)]
pub struct Subscription {
    pub center: NotificationCenter,
    pub kind: NotificationKind,
    pub name: &'static str,
}

/// The notifications the workspace observer registers for, in order.
pub fn observed_notifications() -> (r: Vec<Subscription>)
    ensures
        r@ == seq![
            Subscription {
                center: NotificationCenter::Workspace,
                kind: NotificationKind::DisplayChanged,
                name: "NSWorkspaceActiveDisplayDidChangeNotification",
            },
            Subscription {
                center: NotificationCenter::Workspace,
                kind: NotificationKind::SpaceChanged,
                name: "NSWorkspaceActiveSpaceDidChangeNotification",
            },
            Subscription {
                center: NotificationCenter::Workspace,
                kind: NotificationKind::ApplicationHidden,
                name: "NSWorkspaceDidHideApplicationNotification",
            },
            Subscription {
                center: NotificationCenter::Workspace,
                kind: NotificationKind::ApplicationUnhidden,
                name: "NSWorkspaceDidUnhideApplicationNotification",
            },
            Subscription {
                center: NotificationCenter::Workspace,
                kind: NotificationKind::SystemWoke,
                name: "NSWorkspaceDidWakeNotification",
            },
            Subscription {
                center: NotificationCenter::Distributed,
                kind: NotificationKind::MenuBarHidingChanged,
                name: "AppleInterfaceMenuBarHidingChangedNotification",
            },
            Subscription {
                center: NotificationCenter::Distributed,
                kind: NotificationKind::ThemeChanged,
                name: "AppleInterfaceThemeChangedNotification",
            },
            Subscription {
                center: NotificationCenter::Distributed,
                kind: NotificationKind::DockPrefChanged,
                name: "com.apple.dock.prefchanged",
            },
            Subscription {
                center: NotificationCenter::Default,
                kind: NotificationKind::DockRestarted,
                name: "NSApplicationDockDidRestartNotification",
            },
        ],
{
    let mut r: Vec<Subscription> = Vec::new();
    r.push(
        Subscription {
            center: NotificationCenter::Workspace,
            kind: NotificationKind::DisplayChanged,
            name: "NSWorkspaceActiveDisplayDidChangeNotification",
        },
    );
    r.push(
        Subscription {
            center: NotificationCenter::Workspace,
            kind: NotificationKind::SpaceChanged,
            name: "NSWorkspaceActiveSpaceDidChangeNotification",
        },
    );
    r.push(
        Subscription {
            center: NotificationCenter::Workspace,
            kind: NotificationKind::ApplicationHidden,
            name: "NSWorkspaceDidHideApplicationNotification",
        },
    );
    r.push(
        Subscription {
            center: NotificationCenter::Workspace,
            kind: NotificationKind::ApplicationUnhidden,
            name: "NSWorkspaceDidUnhideApplicationNotification",
        },
    );
    r.push(
        Subscription {
            center: NotificationCenter::Workspace,
            kind: NotificationKind::SystemWoke,
            name: "NSWorkspaceDidWakeNotification",
        },
    );
    r.push(
        Subscription {
            center: NotificationCenter::Distributed,
            kind: NotificationKind::MenuBarHidingChanged,
            name: "AppleInterfaceMenuBarHidingChangedNotification",
        },
    );
    r.push(
        Subscription {
            center: NotificationCenter::Distributed,
            kind: NotificationKind::ThemeChanged,
            name: "AppleInterfaceThemeChangedNotification",
        },
    );
    r.push(
        Subscription {
            center: NotificationCenter::Distributed,
            kind: NotificationKind::DockPrefChanged,
            name: "com.apple.dock.prefchanged",
        },
    );
    r.push(
        Subscription {
            center: NotificationCenter::Default,
            kind: NotificationKind::DockRestarted,
            name: "NSApplicationDockDidRestartNotification",
        },
    );
    assert(r@ =~= seq![
        Subscription {
            center: NotificationCenter::Workspace,
            kind: NotificationKind::DisplayChanged,
            name: "NSWorkspaceActiveDisplayDidChangeNotification",
        },
        Subscription {
            center: NotificationCenter::Workspace,
            kind: NotificationKind::SpaceChanged,
            name: "NSWorkspaceActiveSpaceDidChangeNotification",
        },
        Subscription {
            center: NotificationCenter::Workspace,
            kind: NotificationKind::ApplicationHidden,
            name: "NSWorkspaceDidHideApplicationNotification",
        },
        Subscription {
            center: NotificationCenter::Workspace,
            kind: NotificationKind::ApplicationUnhidden,
            name: "NSWorkspaceDidUnhideApplicationNotification",
        },
        Subscription {
            center: NotificationCenter::Workspace,
            kind: NotificationKind::SystemWoke,
            name: "NSWorkspaceDidWakeNotification",
        },
        Subscription {
            center: NotificationCenter::Distributed,
            kind: NotificationKind::MenuBarHidingChanged,
            name: "AppleInterfaceMenuBarHidingChangedNotification",
        },
        Subscription {
            center: NotificationCenter::Distributed,
            kind: NotificationKind::ThemeChanged,
            name: "AppleInterfaceThemeChangedNotification",
        },
        Subscription {
            center: NotificationCenter::Distributed,
            kind: NotificationKind::DockPrefChanged,
            name: "com.apple.dock.prefchanged",
        },
        Subscription {
            center: NotificationCenter::Default,
            kind: NotificationKind::DockRestarted,
            name: "NSApplicationDockDidRestartNotification",
        },
    ]);
    r
}

/// What a key-value change on a launching application leads to.
#[derive(Clone, Copy, PartialEq, Eq, Debug, Structural)]
pub enum ObservedChange {
    /// Nothing yet: keep observing.
    Ignore,
    /// A key path this observer never registered for.
    UnknownKeyPath,
    /// The application finished launching: stop observing that, and
    /// report it launched.
    FinishedLaunching,
    /// The application's activation policy changed to `policy`: record
    /// it, stop observing the policy, and report the application launched.
    PolicyChanged { policy: isize },
}

fn same_text(a: &str, b: &str) -> (r: bool)
    ensures
        r == (a@ == b@),
{
    a.to_owned() == b.to_owned()
}

/// The key path of the launch-finished flag.
pub open spec fn finished_launching_path() -> Seq<char> {
    "finishedLaunching"@
}

/// The key path of the activation policy.
pub open spec fn activation_policy_path() -> Seq<char> {
    "activationPolicy"@
}

/// Whether `new_value` is the policy already recorded.
pub open spec fn same_policy(new_value: Option<i32>, current_policy: isize) -> bool {
    &&& new_value is Some
    &&& i32::MIN <= current_policy <= i32::MAX
    &&& new_value.unwrap() == current_policy
}

/// How the observer reads a key-value change on a launching application:
/// the launch-finished flag turning on (or a change without a value)
/// means it finished launching; an activation policy other than the
/// recorded one is recorded. A change of the policy must carry the new
/// value.
pub fn observed_change(key_path: &str, new_value: Option<i32>, current_policy: isize) -> (r:
    ObservedChange)
    requires
        key_path@ == activation_policy_path() ==> new_value is Some,
    ensures
        key_path@ == finished_launching_path() ==> r == (if new_value is Some && new_value.unwrap()
            != 1 {
            ObservedChange::Ignore
        } else {
            ObservedChange::FinishedLaunching
        }),
        key_path@ == activation_policy_path() ==> r == (if same_policy(
            new_value,
            current_policy,
        ) {
            ObservedChange::Ignore
        } else {
            ObservedChange::PolicyChanged { policy: new_value.unwrap() as isize }
        }),
        key_path@ != finished_launching_path() && key_path@ != activation_policy_path() ==> r
            == ObservedChange::UnknownKeyPath,
{
    proof {
        reveal_strlit("activationPolicy");
        reveal_strlit("finishedLaunching");
        assert("finishedLaunching"@[0] != "activationPolicy"@[0]);
        assert(finished_launching_path() != activation_policy_path());
    }
    if same_text(key_path, "finishedLaunching") {
        match new_value {
            Some(v) => if v != 1 {
                return ObservedChange::Ignore;
            },
            None => {},
        }
        ObservedChange::FinishedLaunching
    } else if same_text(key_path, "activationPolicy") {
        let v = match new_value {
            Some(v) => v,
            None => {
                assert(false);
                return ObservedChange::Ignore;
            },
        };
        if i32::MIN as isize <= current_policy && current_policy <= i32::MAX as isize
            && v as isize == current_policy {
            return ObservedChange::Ignore;
        }
        ObservedChange::PolicyChanged { policy: v as isize }
    } else {
        ObservedChange::UnknownKeyPath
    }
}

} // verus!
