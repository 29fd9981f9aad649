//! Which window was last focused on each workspace, per tier.
use vstd::prelude::*;

use std::collections::HashMap;

use crate::geometry::{
    contains_point, fits_i32, half, intersection, lemma_center_inside,
    lemma_intersection_is_shared_part, ordered, overlaps, Point, Rect,
};
use vstd::std_specs::iter::IteratorSpec;

verus! {

/// The bits of an ECS entity, which identify it (index and generation).
pub type EntityBits = u64;

/// The operating system's identifier of a workspace (a Space).
pub type WorkspaceId = u64;

/// Why a window is not tiled in a strip.
#[derive(Clone, Copy, PartialEq, Eq, Debug, Structural)]
pub enum Unmanaged {
    /// Floating above (or behind) the tiled windows.
    Floating,
    /// Minimized to the Dock.
    Minimized,
    /// Its application is hidden.
    Hidden,
}

/// The last focused window of each tier on one workspace.
#[derive(Clone, Copy, PartialEq, Eq, Debug, Structural)]
pub struct TierMemory {
    pub last_managed: Option<EntityBits>,
    pub last_floating: Option<EntityBits>,
}

impl Default for TierMemory {
    fn default() -> (r: Self)
        ensures
            r == TierMemory::empty(),
    {
        TierMemory { last_managed: None, last_floating: None }
    }
}

impl TierMemory {
    /// A workspace on which nothing has been remembered.
    pub open spec fn empty() -> TierMemory {
        TierMemory { last_managed: None, last_floating: None }
    }

    /// This memory after `entity` was focused with the given tier.
    /// Minimized and hidden windows are not remembered.
    pub open spec fn after_focus(self, entity: EntityBits, unmanaged: Option<Unmanaged>) -> TierMemory {
        match unmanaged {
            None => TierMemory { last_managed: Some(entity), ..self },
            Some(Unmanaged::Floating) => TierMemory { last_floating: Some(entity), ..self },
            Some(_) => self,
        }
    }

    /// This memory with every mention of `entity` cleared.
    pub open spec fn forgetting(self, entity: EntityBits) -> TierMemory {
        TierMemory {
            last_managed: if self.last_managed == Some(entity) {
                None
            } else {
                self.last_managed
            },
            last_floating: if self.last_floating == Some(entity) {
                None
            } else {
                self.last_floating
            },
        }
    }

    fn forget(self, entity: EntityBits) -> (r: TierMemory)
        ensures
            r == self.forgetting(entity),
    {
        let last_managed = match self.last_managed {
            Some(e) => if e == entity {
                None
            } else {
                Some(e)
            },
            None => None,
        };
        let last_floating = match self.last_floating {
            Some(e) => if e == entity {
                None
            } else {
                Some(e)
            },
            None => None,
        };
        TierMemory { last_managed, last_floating }
    }
}

/// The memory a map keeps for `workspace`: empty when it keeps none.
pub open spec fn slot_of(m: Map<WorkspaceId, TierMemory>, workspace: WorkspaceId) -> TierMemory {
    if m.contains_key(workspace) {
        m[workspace]
    } else {
        TierMemory::empty()
    }
}

/// The map after `entity` was focused on `workspace` with the given tier.
/// The workspace gets an entry even when nothing is remembered.
pub open spec fn recorded(
    m: Map<WorkspaceId, TierMemory>,
    workspace: WorkspaceId,
    entity: EntityBits,
    unmanaged: Option<Unmanaged>,
) -> Map<WorkspaceId, TierMemory> {
    m.insert(workspace, slot_of(m, workspace).after_focus(entity, unmanaged))
}

/// The map with every mention of `entity` cleared.
pub open spec fn forgotten(m: Map<WorkspaceId, TierMemory>, entity: EntityBits) -> Map<
    WorkspaceId,
    TierMemory,
> {
    m.map_values(|t: TierMemory| t.forgetting(entity))
}

/// The tier a reference to an unmanaged marker names.
pub open spec fn tier_of(unmanaged: Option<&Unmanaged>) -> Option<Unmanaged> {
    match unmanaged {
        Some(u) => Some(*u),
        None => None,
    }
}

/// Remembers, per workspace, the last focused managed window and the last
/// focused floating window.
///
/// Keyed by workspace so toggling on one Space can't reach a window last
/// focused on another. Cleared on entity despawn (`forget`) so recycled
/// entity ids can't resolve to the wrong window, and on workspace despawn
/// (`forget_workspace`) to bound the map.
pub struct FocusHistory {
    by_workspace: HashMap<WorkspaceId, TierMemory>,
}

impl View for FocusHistory {
    type V = Map<WorkspaceId, TierMemory>;

    closed spec fn view(&self) -> Map<WorkspaceId, TierMemory> {
        self.by_workspace@
    }
}

impl Default for FocusHistory {
    fn default() -> (r: Self)
        ensures
            r@ == Map::<WorkspaceId, TierMemory>::empty(),
    {
        FocusHistory { by_workspace: HashMap::new() }
    }
}

impl FocusHistory {
    /// Remembers that `entity` was focused on `workspace`, in the tier that
    /// `unmanaged` gives (`None` for a tiled window). Minimized and hidden
    /// windows are not remembered.
    pub fn record(&mut self, workspace: WorkspaceId, entity: EntityBits, unmanaged: Option<&Unmanaged>)
        ensures
            final(self)@ == recorded(old(self)@, workspace, entity, tier_of(unmanaged)),
    {
        let mut slot = match self.by_workspace.get(&workspace) {
            Some(t) => *t,
            None => TierMemory { last_managed: None, last_floating: None },
        };
        match unmanaged {
            None => slot.last_managed = Some(entity),
            Some(Unmanaged::Floating) => slot.last_floating = Some(entity),
            Some(_) => {},
        }
        self.by_workspace.insert(workspace, slot);
    }

    /// The last focused tiled window on `workspace`.
    pub fn last_managed(&self, workspace: WorkspaceId) -> (r: Option<EntityBits>)
        ensures
            r == slot_of(self@, workspace).last_managed,
    {
        match self.by_workspace.get(&workspace) {
            Some(t) => t.last_managed,
            None => None,
        }
    }

    /// The last focused floating window on `workspace`.
    pub fn last_floating(&self, workspace: WorkspaceId) -> (r: Option<EntityBits>)
        ensures
            r == slot_of(self@, workspace).last_floating,
    {
        match self.by_workspace.get(&workspace) {
            Some(t) => t.last_floating,
            None => None,
        }
    }

    /// Clears `entity` from every workspace's memory.
    pub fn forget(&mut self, entity: EntityBits)
        ensures
            final(self)@ == forgotten(old(self)@, entity),
    {
        let ghost m = self.by_workspace@;
        let ghost s = vstd::std_specs::hash::spec_hash_map_iter(&self.by_workspace).remaining();
        let mut cleared: HashMap<WorkspaceId, TierMemory> = HashMap::new();
        for pair in it: self.by_workspace.iter()
            invariant
                m == self.by_workspace@,
                it.seq() == s,
                s == vstd::std_specs::hash::spec_hash_map_iter(&self.by_workspace).remaining(),
                forall|k: WorkspaceId| #[trigger]
                    cleared@.contains_key(k) ==> m.contains_key(k) && cleared@[k]
                        == m[k].forgetting(entity),
                forall|i: int|
                    0 <= i < it.index() ==> cleared@.contains_key(*(#[trigger] it.seq()[i]).0),
        {
            let (k, v) = pair;
            cleared.insert(*k, v.forget(entity));
        }
        proof {
            assert forall|k: WorkspaceId| m.contains_key(k) implies #[trigger]
                cleared@.contains_key(k) by {
                assert(s.contains((&k, &m[k])));
                let i = choose|i: int| 0 <= i < s.len() && s[i] == (&k, &m[k]);
                assert(cleared@.contains_key(*s[i].0));
            }
            assert(cleared@ =~= forgotten(m, entity));
        }
        self.by_workspace = cleared;
    }

    /// Drops everything remembered about `workspace`.
    pub fn forget_workspace(&mut self, workspace: WorkspaceId)
        ensures
            final(self)@ == old(self)@.remove(workspace),
    {
        self.by_workspace.remove(&workspace);
    }
}


/// Reading a tier right after recording a window in it gives that window,
/// and leaves the other tier as it was.
pub proof fn lemma_read_after_record(
    m: Map<WorkspaceId, TierMemory>,
    workspace: WorkspaceId,
    entity: EntityBits,
    unmanaged: Option<Unmanaged>,
)
    ensures
        unmanaged is None ==> slot_of(recorded(m, workspace, entity, unmanaged), workspace).last_managed
            == Some(entity) && slot_of(
            recorded(m, workspace, entity, unmanaged),
            workspace,
        ).last_floating == slot_of(m, workspace).last_floating,
        unmanaged == Some(Unmanaged::Floating) ==> slot_of(
            recorded(m, workspace, entity, unmanaged),
            workspace,
        ).last_floating == Some(entity) && slot_of(
            recorded(m, workspace, entity, unmanaged),
            workspace,
        ).last_managed == slot_of(m, workspace).last_managed,
{
}

/// Minimized and hidden windows are never remembered: recording one
/// changes no answer on any workspace.
pub proof fn lemma_record_ignores_minimized_and_hidden(
    m: Map<WorkspaceId, TierMemory>,
    workspace: WorkspaceId,
    entity: EntityBits,
    unmanaged: Unmanaged,
    any: WorkspaceId,
)
    requires
        unmanaged != Unmanaged::Floating,
    ensures
        slot_of(recorded(m, workspace, entity, Some(unmanaged)), any) == slot_of(m, any),
{
}

/// Recording on one workspace never changes what another remembers.
pub proof fn lemma_per_workspace_isolation(
    m: Map<WorkspaceId, TierMemory>,
    workspace: WorkspaceId,
    entity: EntityBits,
    unmanaged: Option<Unmanaged>,
    other: WorkspaceId,
)
    requires
        other != workspace,
    ensures
        slot_of(recorded(m, workspace, entity, unmanaged), other) == slot_of(m, other),
{
}

/// After forgetting an entity no workspace remembers it in either tier,
/// and every other remembered window stays remembered.
pub proof fn lemma_forget_clears_entity_everywhere(
    m: Map<WorkspaceId, TierMemory>,
    entity: EntityBits,
    workspace: WorkspaceId,
)
    ensures
        slot_of(forgotten(m, entity), workspace).last_managed != Some(entity),
        slot_of(forgotten(m, entity), workspace).last_floating != Some(entity),
        slot_of(m, workspace).last_managed != Some(entity) ==> slot_of(
            forgotten(m, entity),
            workspace,
        ).last_managed == slot_of(m, workspace).last_managed,
        slot_of(m, workspace).last_floating != Some(entity) ==> slot_of(
            forgotten(m, entity),
            workspace,
        ).last_floating == slot_of(m, workspace).last_floating,
{
}

/// Forgetting a workspace drops everything it remembered and nothing that
/// any other workspace remembers.
pub proof fn lemma_forget_workspace_drops_entry(
    m: Map<WorkspaceId, TierMemory>,
    workspace: WorkspaceId,
    other: WorkspaceId,
)
    ensures
        slot_of(m.remove(workspace), workspace) == TierMemory::empty(),
        other != workspace ==> slot_of(m.remove(workspace), other) == slot_of(m, other),
{
}


// ---------------------------------------------------------------------------
// Focus changes
// ---------------------------------------------------------------------------

/// The window manager's identifier of a window.
pub type WindowId = i32;

/// The focus-related flags of the global state.
#[derive(Clone, Copy, PartialEq, Eq, Debug, Structural)]
pub struct FocusFlags {
    /// Whether the next focus change leaves the strip where it is.
    pub skip_reshuffle: bool,
    /// The window that focus-follows-mouse is focusing, while it does.
    pub ffm_flag: Option<WindowId>,
}

impl FocusFlags {
    /// The flags once a window gained focus. A focus change made by the
    /// keyboard re-enables reshuffling; one made by the mouse keeps it
    /// skipped, so the strip does not jump under the pointer. Either way the
    /// mouse's claim is spent.
    pub fn on_focus_changed(&mut self)
        ensures
            final(self).ffm_flag is None,
            final(self).skip_reshuffle == (old(self).ffm_flag is Some && old(self).skip_reshuffle),
    {
        if self.ffm_flag.is_none() {
            self.skip_reshuffle = false;
        }
        self.ffm_flag = None;
    }
}

/// What follows a window gaining focus.
#[derive(Clone, Copy, PartialEq, Eq, Debug, Structural)]
pub enum AutocenterPlan {
    /// Leave the strip alone.
    Skip,
    /// Re-lay the strip around the window.
    Reshuffle,
    /// Move the window to `origin` (centring it on the display), then
    /// re-lay the strip around it.
    CenterAndReshuffle { origin: Point },
}

/// What is known of a newly focused window.
#[derive(Clone, Copy, PartialEq, Eq, Debug, Structural)]
pub struct FocusedWindow {
    /// Whether it is tiled (managed and not floating).
    pub tiled: bool,
    /// Its width, when known.
    pub width: Option<i32>,
    /// Its origin, when known.
    pub origin: Option<Point>,
}

pub open spec fn autocenter_spec(
    skip_reshuffle: bool,
    initializing: bool,
    mouse_held: bool,
    auto_center: bool,
    window: FocusedWindow,
    display_center_x: int,
) -> AutocenterPlan {
    if skip_reshuffle || initializing || mouse_held {
        AutocenterPlan::Skip
    } else if auto_center && window.tiled && window.width is Some && window.origin is Some {
        AutocenterPlan::CenterAndReshuffle {
            origin: Point {
                x: (display_center_x - half(window.width.unwrap() as int)) as i32,
                y: window.origin.unwrap().y,
            },
        }
    } else {
        AutocenterPlan::Reshuffle
    }
}

/// How the strip responds to a window gaining focus: nothing while focus
/// moves without reshuffling, while starting up, or while a mouse button is
/// held; otherwise it is re-laid around the window, which is first centred
/// horizontally on the display when auto-centring is on and it is tiled.
pub fn autocenter_plan(
    skip_reshuffle: bool,
    initializing: bool,
    mouse_held: bool,
    auto_center: bool,
    window: FocusedWindow,
    display_center_x: i32,
) -> (r: AutocenterPlan)
    requires
        window.width is Some ==> fits_i32(display_center_x - half(window.width.unwrap() as int)),
    ensures
        r == autocenter_spec(
            skip_reshuffle,
            initializing,
            mouse_held,
            auto_center,
            window,
            display_center_x as int,
        ),
{
    if skip_reshuffle || initializing || mouse_held {
        return AutocenterPlan::Skip;
    }
    if auto_center && window.tiled {
        if let (Some(width), Some(origin)) = (window.width, window.origin) {
            return AutocenterPlan::CenterAndReshuffle {
                origin: Point { x: display_center_x - width / 2, y: origin.y },
            };
        }
    }
    AutocenterPlan::Reshuffle
}

/// Where the pointer is warped when a window gains focus, if anywhere: the
/// centre of the window's visible part on its display. Nothing happens
/// while the user swipes, when the setting is off, when focus moves without
/// reshuffling, or when the pointer itself focused this window.
pub fn mouse_warp_point(
    user_swiping: bool,
    mouse_follows_focus: bool,
    skip_reshuffle: bool,
    ffm_flag: Option<WindowId>,
    window_id: WindowId,
    frame: Option<Rect>,
    display_bounds: Option<Rect>,
) -> (r: Option<Point>)
    requires
        frame is Some && display_bounds is Some ==> {
            let v = intersection(display_bounds.unwrap(), frame.unwrap());
            fits_i32(v.min.x + v.max.x) && fits_i32(v.min.y + v.max.y)
        },
    ensures
        (user_swiping || !mouse_follows_focus || skip_reshuffle || ffm_flag == Some(window_id)
            || frame is None || display_bounds is None) ==> r is None,
        !(user_swiping || !mouse_follows_focus || skip_reshuffle || ffm_flag == Some(window_id)
            || frame is None || display_bounds is None) ==> {
            let v = intersection(display_bounds.unwrap(), frame.unwrap());
            r == Some(Point { x: v.spec_center_x() as i32, y: v.spec_center_y() as i32 })
        },
        r matches Some(p) ==> (ordered(frame.unwrap()) && ordered(display_bounds.unwrap())
            && overlaps(display_bounds.unwrap(), frame.unwrap()) ==> contains_point(
            display_bounds.unwrap(),
            p.x as int,
            p.y as int,
        ) && contains_point(frame.unwrap(), p.x as int, p.y as int)),
{
    if user_swiping || !mouse_follows_focus || skip_reshuffle {
        return None;
    }
    if let Some(id) = ffm_flag {
        if id == window_id {
            return None;
        }
    }
    match (frame, display_bounds) {
        (Some(f), Some(d)) => {
            proof {
                if ordered(f) && ordered(d) && overlaps(d, f) {
                    lemma_warp_point_in_visible_part(f, d);
                }
            }
            let visible = d.intersect(f);
            Some(visible.center())
        },
        _ => None,
    }
}

/// The pointer is warped into the part of the window the display shows:
/// when the window's frame and the display's bounds overlap, the warp
/// point lies inside both.
pub proof fn lemma_warp_point_in_visible_part(frame: Rect, display: Rect)
    requires
        ordered(frame),
        ordered(display),
        overlaps(display, frame),
    ensures
        contains_point(
            display,
            intersection(display, frame).spec_center_x(),
            intersection(display, frame).spec_center_y(),
        ),
        contains_point(
            frame,
            intersection(display, frame).spec_center_x(),
            intersection(display, frame).spec_center_y(),
        ),
{
    let v = intersection(display, frame);
    lemma_intersection_is_shared_part(display, frame);
    lemma_center_inside(v);
    assert(contains_point(v, v.spec_center_x(), v.spec_center_y()));
}

/// A strip and whether it holds a given window and is the active one.
#[derive(Clone, Copy, PartialEq, Eq, Debug, Structural)]
pub struct StripMembership {
    pub entity: EntityBits,
    pub contains: bool,
    pub active: bool,
}

/// The first inactive strip among the first `n` that holds the window.
pub open spec fn strip_to_activate_spec(strips: Seq<StripMembership>, n: nat) -> Option<EntityBits>
    decreases n,
{
    if n == 0 {
        None
    } else {
        match strip_to_activate_spec(strips, (n - 1) as nat) {
            Some(e) => Some(e),
            None => if strips[n - 1].contains && !strips[n - 1].active {
                Some(strips[n - 1].entity)
            } else {
                None
            },
        }
    }
}

/// The strip to make active because a window on it gained focus: the first
/// strip holding the window that is not already active (a virtual strip
/// that was hidden).
pub fn strip_to_activate(strips: &[StripMembership]) -> (r: Option<EntityBits>)
    ensures
        r == strip_to_activate_spec(strips@, strips@.len()),
{
    let mut i: usize = 0;
    while i < strips.len()
        invariant
            i <= strips@.len(),
            strip_to_activate_spec(strips@, i as nat) is None,
        decreases strips@.len() - i,
    {
        let s = strips[i];
        if s.contains && !s.active {
            proof {
                lemma_first_stays(strips@, (i + 1) as nat, strips@.len());
            }
            return Some(s.entity);
        }
        i = i + 1;
    }
    None
}

proof fn lemma_first_stays(strips: Seq<StripMembership>, n: nat, m: nat)
    requires
        n <= m,
        strip_to_activate_spec(strips, n) is Some,
    ensures
        strip_to_activate_spec(strips, m) == strip_to_activate_spec(strips, n),
    decreases m - n,
{
    if n < m {
        lemma_first_stays(strips, n, (m - 1) as nat);
    }
}

/// Whether focusing a window leaves the application's windows in their
/// z-order: only when asked not to raise and the currently focused window
/// (and its process) is known; otherwise the window is raised.
pub fn focuses_without_raise(raise: bool, focused_known: bool) -> (r: bool)
    ensures
        r == (!raise && focused_known),
{
    !raise && focused_known
}

/// Whether a window losing focus is dimmed (when dimming is configured):
/// only a tiled window on the active display's strip. A window losing focus
/// on another display keeps its brightness.
pub fn dims_on_focus_loss(tiled: bool, on_active_strip: bool) -> (r: bool)
    ensures
        r == (tiled && on_active_strip),
{
    tiled && on_active_strip
}

/// The window to hand focus to when no window holds it: the top window of
/// the active strip's first column, if there is one.
pub fn recovery_target(focused: Option<EntityBits>, first_top: Option<EntityBits>) -> (r: Option<
    EntityBits,
>)
    ensures
        focused is Some ==> r is None,
        focused is None ==> r == first_top,
{
    if focused.is_some() {
        None
    } else {
        first_top
    }
}

/// An application entity and whether it is frontmost.
#[derive(Clone, Copy, PartialEq, Eq, Debug, Structural)]
pub struct AppEntry {
    pub entity: EntityBits,
    pub frontmost: bool,
}

/// The number of frontmost applications among the first `n`.
pub open spec fn frontmost_count(apps: Seq<AppEntry>, n: nat) -> nat
    decreases n,
{
    if n == 0 {
        0
    } else {
        frontmost_count(apps, (n - 1) as nat) + if apps[n - 1].frontmost {
            1nat
        } else {
            0nat
        }
    }
}

/// The frontmost application, when exactly one claims to be.
pub fn sole_frontmost(apps: &[AppEntry]) -> (r: Option<EntityBits>)
    ensures
        frontmost_count(apps@, apps@.len()) != 1 ==> r is None,
        frontmost_count(apps@, apps@.len()) == 1 ==> exists|i: int|
            0 <= i < apps@.len() && (#[trigger] apps@[i]).frontmost && r == Some(apps@[i].entity),
{
    let mut found: Option<EntityBits> = None;
    let mut count: usize = 0;
    let mut i: usize = 0;
    while i < apps.len()
        invariant
            i <= apps@.len(),
            count == frontmost_count(apps@, i as nat),
            count <= 1,
            count == 0 <==> found is None,
            count == 1 ==> exists|j: int|
                0 <= j < i && (#[trigger] apps@[j]).frontmost && found == Some(apps@[j].entity),
        decreases apps@.len() - i,
    {
        if apps[i].frontmost {
            if count == 1 {
                proof {
                    lemma_frontmost_count_grows(apps@, (i + 1) as nat, apps@.len());
                }
                return None;
            }
            found = Some(apps[i].entity);
            count = 1;
        }
        i = i + 1;
    }
    found
}

proof fn lemma_frontmost_count_grows(apps: Seq<AppEntry>, n: nat, m: nat)
    requires
        n <= m <= apps.len(),
    ensures
        frontmost_count(apps, n) <= frontmost_count(apps, m),
    decreases m - n,
{
    if n < m {
        lemma_frontmost_count_grows(apps, n, (m - 1) as nat);
    }
}

/// Whether the focus marker must follow the frontmost window `window`:
/// not while focus moves without reshuffling or while starting up, and not
/// when that window already holds focus.
pub fn needs_reconcile(
    skip_reshuffle: bool,
    initializing: bool,
    focused: Option<EntityBits>,
    window: EntityBits,
) -> (r: bool)
    ensures
        r == (!skip_reshuffle && !initializing && focused != Some(window)),
{
    if skip_reshuffle || initializing {
        return false;
    }
    match focused {
        Some(f) => f != window,
        None => true,
    }
}

/// A focus event that arrived before its window existed, waiting (with a
/// timeout) to be replayed.
#[derive(Clone, Copy, PartialEq, Eq, Debug, Structural)]
pub struct StrayFocus {
    pub entity: EntityBits,
    pub window_id: WindowId,
}

/// The stray focus events among the first `n` for `window_id`, in order.
pub open spec fn stray_for_spec(events: Seq<StrayFocus>, n: nat, window_id: WindowId) -> Seq<EntityBits>
    decreases n,
{
    if n == 0 {
        Seq::empty()
    } else {
        let prev = stray_for_spec(events, (n - 1) as nat, window_id);
        if events[n - 1].window_id == window_id {
            prev.push(events[n - 1].entity)
        } else {
            prev
        }
    }
}

/// The waiting focus events that a newly appeared window answers: each is
/// replayed and its waiting entity despawned.
pub fn stray_events_for(events: &[StrayFocus], window_id: WindowId) -> (r: Vec<EntityBits>)
    ensures
        r@ == stray_for_spec(events@, events@.len(), window_id),
{
    let mut r: Vec<EntityBits> = Vec::new();
    let mut i: usize = 0;
    while i < events.len()
        invariant
            i <= events@.len(),
            r@ == stray_for_spec(events@, i as nat, window_id),
        decreases events@.len() - i,
    {
        if events[i].window_id == window_id {
            r.push(events[i].entity);
        }
        i = i + 1;
    }
    r
}

} // verus!
