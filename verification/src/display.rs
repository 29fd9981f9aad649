//! Display bookkeeping: which display is active, which strips a removed
//! display orphans, and how workspaces are re-homed when displays change.
use vstd::prelude::*;

use bevy::platform::collections::HashSet;
use bevy::platform::hash::FixedHasher;

use crate::focus::{EntityBits, WorkspaceId};
use crate::geometry::Point;

verus! {

/// Whether floating windows on a workspace sit above or behind tiled ones in
/// the OS z-order. The default is `Front` (floats above tiles).
#[derive(Clone, Copy, PartialEq, Eq, Debug, Structural)]
pub enum FloatingLayer {
    Front,
    Behind,
}

impl FloatingLayer {
    /// The other layer.
    pub fn flipped(self) -> (r: Self)
        ensures
            r == flip(self),
    {
        match self {
            FloatingLayer::Front => FloatingLayer::Behind,
            FloatingLayer::Behind => FloatingLayer::Front,
        }
    }
}

impl Default for FloatingLayer {
    fn default() -> (r: Self)
        ensures
            r == FloatingLayer::Front,
    {
        FloatingLayer::Front
    }
}


/// The operating system's identifier of a display.
pub type DisplayId = u32;

/// An entity and whether it carries some marker.
#[derive(Clone, Copy, PartialEq, Eq, Debug, Structural)]
pub struct Marked {
    pub entity: EntityBits,
    pub marked: bool,
}

/// The entities among the first `n` that carry the marker, other than
/// `keep`, in order.
pub open spec fn others_marked_spec(items: Seq<Marked>, n: nat, keep: EntityBits) -> Seq<EntityBits>
    decreases n,
{
    if n == 0 {
        Seq::empty()
    } else {
        let prev = others_marked_spec(items, (n - 1) as nat, keep);
        let item = items[n - 1];
        if item.marked && item.entity != keep {
            prev.push(item.entity)
        } else {
            prev
        }
    }
}

/// The entities that must lose a marker so that only `keep` carries it:
/// every marked entity other than `keep`, in order.
pub fn others_marked(items: &[Marked], keep: EntityBits) -> (r: Vec<EntityBits>)
    ensures
        r@ == others_marked_spec(items@, items@.len(), keep),
{
    let mut r: Vec<EntityBits> = Vec::new();
    let mut i: usize = 0;
    while i < items.len()
        invariant
            i <= items@.len(),
            r@ == others_marked_spec(items@, i as nat, keep),
        decreases items@.len() - i,
    {
        let item = items[i];
        if item.marked && item.entity != keep {
            r.push(item.entity);
        }
        i = i + 1;
    }
    r
}

/// A display entity, its display's identifier, and whether it is marked
/// as the active display.
#[derive(Clone, Copy, PartialEq, Eq, Debug, Structural)]
pub struct DisplayEntry {
    pub entity: EntityBits,
    pub display_id: DisplayId,
    pub active: bool,
}

/// The unmarked displays among the first `n` whose identifier is
/// `active_id`, in order.
pub open spec fn displays_to_activate_spec(displays: Seq<DisplayEntry>, n: nat, active_id: DisplayId) -> Seq<
    EntityBits,
>
    decreases n,
{
    if n == 0 {
        Seq::empty()
    } else {
        let prev = displays_to_activate_spec(displays, (n - 1) as nat, active_id);
        let d = displays[n - 1];
        if !d.active && d.display_id == active_id {
            prev.push(d.entity)
        } else {
            prev
        }
    }
}

/// After the active display changed, the display entities that become the
/// active one: those showing the active display that are not yet marked.
pub fn displays_to_activate(displays: &[DisplayEntry], active_id: DisplayId) -> (r: Vec<EntityBits>)
    ensures
        r@ == displays_to_activate_spec(displays@, displays@.len(), active_id),
{
    let mut r: Vec<EntityBits> = Vec::new();
    let mut i: usize = 0;
    while i < displays.len()
        invariant
            i <= displays@.len(),
            r@ == displays_to_activate_spec(displays@, i as nat, active_id),
        decreases displays@.len() - i,
    {
        let d = displays[i];
        if !d.active && d.display_id == active_id {
            r.push(d.entity);
        }
        i = i + 1;
    }
    r
}

/// A display change the system reported, among the events of a frame.
#[derive(Clone, Copy, PartialEq, Eq, Debug, Structural)]
pub enum DisplayEvent {
    Added(DisplayId),
    Removed(DisplayId),
    Moved(DisplayId),
    /// The active display changed.
    Changed,
    /// Any other event.
    Other,
}

/// The handling one rearranging event needs. Each is followed by
/// announcing that the displays changed.
#[derive(Clone, Copy, PartialEq, Eq, Debug, Structural)]
pub enum Rearrangement {
    /// Give the new display its strips.
    Add(DisplayId),
    /// Orphan the removed display's strips.
    Remove(DisplayId),
    /// Re-read the display's bounds and re-home its workspaces.
    Move(DisplayId),
}

/// The handling an event needs, if it rearranges displays.
pub open spec fn rearrangement_of(event: DisplayEvent) -> Option<Rearrangement> {
    match event {
        DisplayEvent::Added(id) => Some(Rearrangement::Add(id)),
        DisplayEvent::Removed(id) => Some(Rearrangement::Remove(id)),
        DisplayEvent::Moved(id) => Some(Rearrangement::Move(id)),
        _ => None,
    }
}

/// The handling the first `n` events need, in order.
pub open spec fn rearrangements_spec(events: Seq<DisplayEvent>, n: nat) -> Seq<Rearrangement>
    decreases n,
{
    if n == 0 {
        Seq::empty()
    } else {
        let prev = rearrangements_spec(events, (n - 1) as nat);
        match rearrangement_of(events[n - 1]) {
            Some(r) => prev.push(r),
            None => prev,
        }
    }
}

/// The display handling a frame's events call for, in the order they
/// arrived: one step per added, removed or moved display, none for any
/// other event.
pub fn rearrangements(events: &[DisplayEvent]) -> (r: Vec<Rearrangement>)
    ensures
        r@ == rearrangements_spec(events@, events@.len()),
{
    let mut r: Vec<Rearrangement> = Vec::new();
    let mut i: usize = 0;
    while i < events.len()
        invariant
            i <= events@.len(),
            r@ == rearrangements_spec(events@, i as nat),
        decreases events@.len() - i,
    {
        match events[i] {
            DisplayEvent::Added(id) => r.push(Rearrangement::Add(id)),
            DisplayEvent::Removed(id) => r.push(Rearrangement::Remove(id)),
            DisplayEvent::Moved(id) => r.push(Rearrangement::Move(id)),
            _ => {},
        }
        i = i + 1;
    }
    r
}

/// Whether some event reports that the active display changed.
pub open spec fn reports_change(events: Seq<DisplayEvent>) -> bool {
    exists|i: int| 0 <= i < events.len() && events[i] == DisplayEvent::Changed
}

/// What a frame's events do to the active-display marker: nothing unless
/// one of them reports that the active display changed, and nothing when
/// the active display cannot be read (`active_id` is `None`). Otherwise the
/// display entities to mark, after which the change of Space is announced.
pub fn display_change_activation(
    events: &[DisplayEvent],
    displays: &[DisplayEntry],
    active_id: Option<DisplayId>,
) -> (r: Option<Vec<EntityBits>>)
    ensures
        !reports_change(events@) ==> r is None,
        reports_change(events@) && active_id is None ==> r is None,
        reports_change(events@) && active_id is Some ==> r is Some && r.unwrap()@
            == displays_to_activate_spec(displays@, displays@.len(), active_id.unwrap()),
{
    let mut changed = false;
    let mut i: usize = 0;
    while i < events.len()
        invariant
            i <= events@.len(),
            changed == exists|j: int| 0 <= j < i && events@[j] == DisplayEvent::Changed,
        decreases events@.len() - i,
    {
        if events[i] == DisplayEvent::Changed {
            changed = true;
        }
        i = i + 1;
    }
    if !changed {
        return None;
    }
    match active_id {
        Some(id) => Some(displays_to_activate(displays, id)),
        None => None,
    }
}

/// Whether the first entry with identifier `display_id` is at `i`.
pub open spec fn first_display(displays: Seq<DisplayEntry>, display_id: DisplayId, i: int) -> bool {
    &&& 0 <= i < displays.len()
    &&& displays[i].display_id == display_id
    &&& forall|j: int| 0 <= j < i ==> (#[trigger] displays[j]).display_id != display_id
}

/// Whether some entry has identifier `display_id`.
pub open spec fn has_display(displays: Seq<DisplayEntry>, display_id: DisplayId) -> bool {
    exists|i: int| 0 <= i < displays.len() && (#[trigger] displays[i]).display_id == display_id
}

/// The position of the first display entity showing `display_id`.
pub fn find_display(displays: &[DisplayEntry], display_id: DisplayId) -> (r: Option<usize>)
    ensures
        r is None <==> !has_display(displays@, display_id),
        r matches Some(i) ==> first_display(displays@, display_id, i as int),
{
    let mut i: usize = 0;
    while i < displays.len()
        invariant
            i <= displays@.len(),
            forall|j: int| 0 <= j < i ==> (#[trigger] displays@[j]).display_id != display_id,
        decreases displays@.len() - i,
    {
        if displays[i].display_id == display_id {
            return Some(i);
        }
        i = i + 1;
    }
    None
}

/// How long an orphaned strip waits to be re-homed before it is reported
/// as lost, in seconds.
pub const ORPHANED_STRIP_TIMEOUT_SECS: u64 = 30;

/// The character of a decimal digit.
pub open spec fn digit_char(d: nat) -> char {
    if d == 0 {
        '0'
    } else if d == 1 {
        '1'
    } else if d == 2 {
        '2'
    } else if d == 3 {
        '3'
    } else if d == 4 {
        '4'
    } else if d == 5 {
        '5'
    } else if d == 6 {
        '6'
    } else if d == 7 {
        '7'
    } else if d == 8 {
        '8'
    } else {
        '9'
    }
}

/// The decimal digits of `n`, most significant first.
pub open spec fn decimal(n: nat) -> Seq<char>
    decreases n,
{
    if n < 10 {
        seq![digit_char(n)]
    } else {
        decimal(n / 10).push(digit_char(n % 10))
    }
}

fn digit_text(d: u64) -> (r: &'static str)
    requires
        d < 10,
    ensures
        r@ == seq![digit_char(d as nat)],
{
    proof {
        reveal_strlit("0");
        reveal_strlit("1");
        reveal_strlit("2");
        reveal_strlit("3");
        reveal_strlit("4");
        reveal_strlit("5");
        reveal_strlit("6");
        reveal_strlit("7");
        reveal_strlit("8");
        reveal_strlit("9");
    }
    if d == 0 {
        "0"
    } else if d == 1 {
        "1"
    } else if d == 2 {
        "2"
    } else if d == 3 {
        "3"
    } else if d == 4 {
        "4"
    } else if d == 5 {
        "5"
    } else if d == 6 {
        "6"
    } else if d == 7 {
        "7"
    } else if d == 8 {
        "8"
    } else {
        "9"
    }
}

fn push_decimal(text: &mut String, n: u64)
    ensures
        final(text)@ == old(text)@ + decimal(n as nat),
    decreases n,
{
    if n >= 10 {
        push_decimal(text, n / 10);
    }
    text.append(digit_text(n % 10));
    proof {
        if n >= 10 {
            assert(final(text)@ =~= old(text)@ + decimal(n as nat));
        } else {
            assert(final(text)@ =~= old(text)@ + decimal(n as nat));
        }
    }
}

/// The message a strip's orphan timeout reports when it expires.
pub open spec fn orphan_message(id: WorkspaceId) -> Seq<char> {
    "Orphaned strip "@ + decimal(id as nat) + " could not be re-inserted after "@ + decimal(
        ORPHANED_STRIP_TIMEOUT_SECS as nat,
    ) + "s."@
}

/// A strip a removed display leaves behind, and the timeout it is given.
#[derive(PartialEq, Eq, Debug)]
pub struct OrphanedStrip {
    /// The strip entity, detached from the display.
    pub strip: EntityBits,
    /// Its workspace.
    pub id: WorkspaceId,
    /// How long it waits to be re-homed, in seconds.
    pub timeout_secs: u64,
    /// What the timeout reports if it expires.
    pub message: String,
}

/// The strips among the first `n` that belong to `display`, in order.
pub open spec fn orphaned_entries(strips: Seq<StripEntry>, n: nat, display: EntityBits) -> Seq<StripEntry>
    decreases n,
{
    if n == 0 {
        Seq::empty()
    } else {
        let prev = orphaned_entries(strips, (n - 1) as nat, display);
        if strips[n - 1].parent == Some(display) {
            prev.push(strips[n - 1])
        } else {
            prev
        }
    }
}

/// Whether `orphans` are the strips `entries`, each with the orphan timeout
/// and its message.
pub open spec fn orphaned_as(orphans: Seq<OrphanedStrip>, entries: Seq<StripEntry>) -> bool {
    &&& orphans.len() == entries.len()
    &&& forall|k: int|
        0 <= k < orphans.len() ==> {
            &&& (#[trigger] orphans[k]).strip == entries[k].entity
            &&& orphans[k].id == entries[k].id
            &&& orphans[k].timeout_secs == ORPHANED_STRIP_TIMEOUT_SECS
            &&& orphans[k].message@ == orphan_message(entries[k].id)
        }
}

/// What removing a display does: the display entity goes, and the strips
/// it held are detached from it and each given the orphan timeout.
#[derive(PartialEq, Eq, Debug)]
pub struct DisplayRemoval {
    /// The display entity to despawn.
    pub display: EntityBits,
    /// Its strips, in order.
    pub orphans: Vec<OrphanedStrip>,
}

/// The removal of the display `display_id`: its first entity and the strips
/// that entity held, each waiting `ORPHANED_STRIP_TIMEOUT_SECS` seconds to
/// be re-homed; nothing when no entity shows that display.
pub fn display_removal(displays: &[DisplayEntry], strips: &[StripEntry], display_id: DisplayId) -> (r:
    Option<DisplayRemoval>)
    ensures
        r is None <==> !has_display(displays@, display_id),
        r matches Some(removal) ==> exists|i: int|
            first_display(displays@, display_id, i) && removal.display == displays@[i].entity
                && orphaned_as(
                removal.orphans@,
                orphaned_entries(strips@, strips@.len(), displays@[i].entity),
            ),
{
    let i = match find_display(displays, display_id) {
        None => return None,
        Some(i) => i,
    };
    let display = displays[i].entity;
    let mut orphans: Vec<OrphanedStrip> = Vec::new();
    let mut k: usize = 0;
    while k < strips.len()
        invariant
            k <= strips@.len(),
            orphaned_as(orphans@, orphaned_entries(strips@, k as nat, display)),
        decreases strips@.len() - k,
    {
        let strip = strips[k];
        let held = match strip.parent {
            Some(p) => p == display,
            None => false,
        };
        if held {
            let mut message = String::new();
            message.append("Orphaned strip ");
            push_decimal(&mut message, strip.id);
            message.append(" could not be re-inserted after ");
            push_decimal(&mut message, ORPHANED_STRIP_TIMEOUT_SECS);
            message.append("s.");
            proof {
                assert(message@ =~= orphan_message(strip.id));
            }
            let ghost before = orphans@;
            orphans.push(
                OrphanedStrip {
                    strip: strip.entity,
                    id: strip.id,
                    timeout_secs: ORPHANED_STRIP_TIMEOUT_SECS,
                    message,
                },
            );
            proof {
                let entries = orphaned_entries(strips@, (k + 1) as nat, display);
                assert(entries == orphaned_entries(strips@, k as nat, display).push(strip));
                assert forall|j: int| 0 <= j < orphans@.len() implies {
                    &&& (#[trigger] orphans@[j]).strip == entries[j].entity
                    &&& orphans@[j].id == entries[j].id
                    &&& orphans@[j].timeout_secs == ORPHANED_STRIP_TIMEOUT_SECS
                    &&& orphans@[j].message@ == orphan_message(entries[j].id)
                } by {
                    if j < before.len() {
                        assert(orphans@[j] == before[j]);
                    }
                }
            }
        }
        k = k + 1;
    }
    Some(DisplayRemoval { display, orphans })
}

/// A display the system lists, with the workspaces it owns.
pub struct PresentDisplay {
    pub id: DisplayId,
    /// The top-left corner of its bounds, where new strips are placed.
    pub origin: Point,
    pub workspace_ids: Vec<WorkspaceId>,
}

/// Whether the first listed display with identifier `display_id` is at `i`.
pub open spec fn first_present(present: Seq<PresentDisplay>, display_id: DisplayId, i: int) -> bool {
    &&& 0 <= i < present.len()
    &&& present[i].id == display_id
    &&& forall|j: int| 0 <= j < i ==> (#[trigger] present[j]).id != display_id
}

/// Whether the system lists a display with identifier `display_id`.
pub open spec fn lists_display(present: Seq<PresentDisplay>, display_id: DisplayId) -> bool {
    exists|i: int| 0 <= i < present.len() && (#[trigger] present[i]).id == display_id
}

/// The position of the first listed display with identifier `display_id`.
pub fn find_present(present: &[PresentDisplay], display_id: DisplayId) -> (r: Option<usize>)
    ensures
        r is None <==> !lists_display(present@, display_id),
        r matches Some(i) ==> first_present(present@, display_id, i as int),
{
    let mut i: usize = 0;
    while i < present.len()
        invariant
            i <= present@.len(),
            forall|j: int| 0 <= j < i ==> (#[trigger] present@[j]).id != display_id,
        decreases present@.len() - i,
    {
        if present[i].id == display_id {
            return Some(i);
        }
        i = i + 1;
    }
    None
}

/// What moving a display does: its entity takes the listed display's new
/// state (the entry at `present_index`), and its workspaces are re-homed.
pub struct DisplayRelocation {
    /// The display entity that moved.
    pub display: EntityBits,
    /// Where the system lists the display's new state.
    pub present_index: usize,
    /// What makes the display hold all its workspaces.
    pub actions: Vec<StripAction>,
}

/// The relocation of the display `display_id`: nothing when no entity shows
/// it or the system no longer lists it; otherwise its first entity, its
/// first listing, and the plan that re-homes the listed workspaces onto
/// that entity.
pub fn display_relocation(
    displays: &[DisplayEntry],
    present: &[PresentDisplay],
    strips: &[StripEntry],
    display_id: DisplayId,
) -> (r: Option<DisplayRelocation>)
    ensures
        r is None <==> !has_display(displays@, display_id) || !lists_display(present@, display_id),
        r matches Some(m) ==> exists|i: int|
            first_display(displays@, display_id, i) && m.display == displays@[i].entity
                && first_present(present@, display_id, m.present_index as int) && m.actions@
                == reparent_plan_spec(
                present@[m.present_index as int].workspace_ids@,
                present@[m.present_index as int].workspace_ids@.len(),
                strips@,
                displays@[i].entity,
                present@[m.present_index as int].origin,
            ),
{
    let i = match find_display(displays, display_id) {
        None => return None,
        Some(i) => i,
    };
    let k = match find_present(present, display_id) {
        None => return None,
        Some(k) => k,
    };
    let display = displays[i].entity;
    let actions = reparent_plan(
        present[k].workspace_ids.as_slice(),
        strips,
        display,
        present[k].origin,
    );
    Some(DisplayRelocation { display, present_index: k, actions })
}

/// How long a display reported as added but not yet listed waits before
/// it is looked for again, in seconds.
pub const DISPLAY_RETRY_SECS: u64 = 5;

/// What to do about a display reported as added.
#[derive(Clone, Copy, PartialEq, Eq, Debug, Structural)]
pub enum DisplayAddition {
    /// The system lists it here: spawn its entity from this listing and
    /// re-home the listed workspaces onto it.
    Found(usize),
    /// Not listed yet: report it added again after `after_secs` seconds.
    Retry { after_secs: u64 },
    /// Not listed on the retry either: give up on it.
    GiveUp,
}

/// How a reported display is added: from its first listing when the system
/// lists it; otherwise retried once, `DISPLAY_RETRY_SECS` seconds later,
/// then given up on.
pub fn display_addition(retries: &mut DisplayRetries, present: &[PresentDisplay], display_id: DisplayId) -> (r:
    DisplayAddition)
    ensures
        lists_display(present@, display_id) ==> final(retries)@ == old(retries)@ && (r matches DisplayAddition::Found(i) && first_present(present@, display_id, i as int)),
        !lists_display(present@, display_id) && !old(retries)@.contains(display_id) ==> r
            == (DisplayAddition::Retry { after_secs: DISPLAY_RETRY_SECS }) && final(retries)@ == old(retries)@.insert(display_id),
        !lists_display(present@, display_id) && old(retries)@.contains(display_id) ==> r
            == DisplayAddition::GiveUp && final(retries)@ == old(retries)@.remove(display_id),
{
    match find_present(present, display_id) {
        Some(i) => DisplayAddition::Found(i),
        None => if retries.on_missing(display_id) {
            DisplayAddition::Retry { after_secs: DISPLAY_RETRY_SECS }
        } else {
            DisplayAddition::GiveUp
        },
    }
}

/// Bevy's hash set, which keeps the displays awaiting a retry.
#[verifier::external_type_specification]
#[verifier::external_body]
#[verifier::reject_recursive_types(T)]
#[verifier::reject_recursive_types(S)]
pub struct ExHashSet<T, S>(HashSet<T, S>);

/// The hasher Bevy's hash set uses by default.
#[verifier::external_type_specification]
#[verifier::external_body]
pub struct ExFixedHasher(FixedHasher);

/// The display identifiers a set holds.
pub uninterp spec fn set_contents(set: HashSet<DisplayId>) -> Set<DisplayId>;

/// Calls `HashSet::new` (Bevy's): a set with nothing in it.
#[verifier::external_body]
fn empty_set() -> (r: HashSet<DisplayId>)
    ensures
        set_contents(r) == Set::<DisplayId>::empty(),
{
    HashSet::new()
}

/// Calls `HashSet::insert` (Bevy's, forwarding to hashbrown's): adds the
/// value and returns whether it was absent.
#[verifier::external_body]
fn set_insert(set: &mut HashSet<DisplayId>, value: DisplayId) -> (r: bool)
    ensures
        r == !set_contents(*old(set)).contains(value),
        set_contents(*final(set)) == set_contents(*old(set)).insert(value),
{
    set.insert(value)
}

/// Calls `HashSet::remove` (Bevy's, forwarding to hashbrown's): removes the
/// value and returns whether it was present.
#[verifier::external_body]
fn set_remove(set: &mut HashSet<DisplayId>, value: DisplayId) -> (r: bool)
    ensures
        r == set_contents(*old(set)).contains(value),
        set_contents(*final(set)) == set_contents(*old(set)).remove(value),
{
    set.remove(&value)
}

/// Displays reported as added before the system listed them. Each is
/// retried once; a second miss gives up on it (and a later miss starts
/// over).
pub struct DisplayRetries {
    pending: HashSet<DisplayId>,
}

impl View for DisplayRetries {
    type V = Set<DisplayId>;

    closed spec fn view(&self) -> Set<DisplayId> {
        set_contents(self.pending)
    }
}

impl Default for DisplayRetries {
    fn default() -> (r: Self)
        ensures
            r@ == Set::<DisplayId>::empty(),
    {
        DisplayRetries { pending: empty_set() }
    }
}

impl DisplayRetries {
    /// Records that the added display `display_id` could not be found.
    /// Returns whether to retry adding it later: yes the first time, no the
    /// second, which also clears its record.
    pub fn on_missing(&mut self, display_id: DisplayId) -> (retry: bool)
        ensures
            retry == !old(self)@.contains(display_id),
            retry ==> final(self)@ == old(self)@.insert(display_id),
            !retry ==> final(self)@ == old(self)@.remove(display_id),
    {
        if set_insert(&mut self.pending, display_id) {
            true
        } else {
            set_remove(&mut self.pending, display_id);
            proof {
                assert(old(self)@.insert(display_id).remove(display_id) =~= old(self)@.remove(
                    display_id,
                ));
            }
            false
        }
    }
}

/// A missing display is retried once and then given up on: two misses in a
/// row retry, then stop and forget the display, so a third miss retries
/// again.
pub proof fn lemma_missing_display_retried_once(pending: Set<DisplayId>, display_id: DisplayId)
    requires
        !pending.contains(display_id),
    ensures
        !pending.insert(display_id).remove(display_id).contains(display_id),
        pending.insert(display_id).contains(display_id),
        pending.insert(display_id).remove(display_id) == pending,
{
    assert(pending.insert(display_id).remove(display_id) =~= pending);
}

/// A strip (workspace) entity and the display entity it belongs to, if any.
#[derive(Clone, Copy, PartialEq, Eq, Debug, Structural)]
pub struct StripEntry {
    pub id: WorkspaceId,
    pub entity: EntityBits,
    pub parent: Option<EntityBits>,
}

/// The strips among the first `n` that belong to `display`, in order.
pub open spec fn orphaned_spec(strips: Seq<StripEntry>, n: nat, display: EntityBits) -> Seq<EntityBits>
    decreases n,
{
    if n == 0 {
        Seq::empty()
    } else {
        let prev = orphaned_spec(strips, (n - 1) as nat, display);
        if strips[n - 1].parent == Some(display) {
            prev.push(strips[n - 1].entity)
        } else {
            prev
        }
    }
}

/// The strips a removed display leaves without a home: every strip that
/// belonged to it, in order. They wait, with a timeout, to be re-homed.
pub fn orphaned_strips(strips: &[StripEntry], display: EntityBits) -> (r: Vec<EntityBits>)
    ensures
        r@ == orphaned_spec(strips@, strips@.len(), display),
{
    let mut r: Vec<EntityBits> = Vec::new();
    let mut i: usize = 0;
    while i < strips.len()
        invariant
            i <= strips@.len(),
            r@ == orphaned_spec(strips@, i as nat, display),
        decreases strips@.len() - i,
    {
        let strip = strips[i];
        match strip.parent {
            Some(p) => if p == display {
                r.push(strip.entity);
            },
            None => {},
        }
        i = i + 1;
    }
    r
}

/// One step of making a display hold all the workspaces it owns.
#[derive(Clone, Copy, PartialEq, Eq, Debug, Structural)]
pub enum StripAction {
    /// Drop the strip's orphan timeout, if it has one.
    ClearTimeout(EntityBits),
    /// Detach the strip from its parent, if it has one, and make it a child
    /// of `display`.
    Attach { strip: EntityBits, display: EntityBits },
    /// Have the strip re-measure its windows.
    RefreshSizes(EntityBits),
    /// Create an empty strip (no columns) for workspace `id` as a child of
    /// `display`, placed at `origin`.
    Spawn { id: WorkspaceId, display: EntityBits, origin: Point },
}

/// The steps that move an existing strip onto `display`: its orphan
/// timeout goes, it is re-parented, and its window sizes are refreshed.
pub open spec fn rehome(strip: EntityBits, display: EntityBits) -> Seq<StripAction> {
    seq![
        StripAction::ClearTimeout(strip),
        StripAction::Attach { strip, display },
        StripAction::RefreshSizes(strip),
    ]
}

/// The steps for the strips among the first `n` with identifier `id` that
/// sit elsewhere than on `display`.
pub open spec fn reparents_for(strips: Seq<StripEntry>, n: nat, id: WorkspaceId, display: EntityBits) -> Seq<
    StripAction,
>
    decreases n,
{
    if n == 0 {
        Seq::empty()
    } else {
        let prev = reparents_for(strips, (n - 1) as nat, id, display);
        let s = strips[n - 1];
        if s.id == id && s.parent != Some(display) {
            prev + rehome(s.entity, display)
        } else {
            prev
        }
    }
}

/// Whether some strip has identifier `id`.
pub open spec fn has_strip(strips: Seq<StripEntry>, id: WorkspaceId) -> bool {
    exists|i: int| 0 <= i < strips.len() && (#[trigger] strips[i]).id == id
}

/// The steps for one workspace: re-home every strip of it that sits
/// elsewhere, or spawn one at the display's top-left corner `origin` if
/// there is none.
pub open spec fn actions_for(strips: Seq<StripEntry>, id: WorkspaceId, display: EntityBits, origin: Point) -> Seq<
    StripAction,
> {
    if has_strip(strips, id) {
        reparents_for(strips, strips.len(), id, display)
    } else {
        seq![StripAction::Spawn { id, display, origin }]
    }
}

/// The steps for the first `n` workspaces, in order.
pub open spec fn reparent_plan_spec(
    workspace_ids: Seq<WorkspaceId>,
    n: nat,
    strips: Seq<StripEntry>,
    display: EntityBits,
    origin: Point,
) -> Seq<StripAction>
    decreases n,
{
    if n == 0 {
        Seq::empty()
    } else {
        reparent_plan_spec(workspace_ids, (n - 1) as nat, strips, display, origin) + actions_for(
            strips,
            workspace_ids[n - 1],
            display,
            origin,
        )
    }
}

/// What makes `display`, whose top-left corner is `origin`, hold every
/// workspace the system lists for it: for each workspace in order, its
/// strips that sit elsewhere are re-homed onto the display, and a
/// workspace with no strip gets a new one at `origin`.
pub fn reparent_plan(
    workspace_ids: &[WorkspaceId],
    strips: &[StripEntry],
    display: EntityBits,
    origin: Point,
) -> (r: Vec<StripAction>)
    ensures
        r@ == reparent_plan_spec(workspace_ids@, workspace_ids@.len(), strips@, display, origin),
{
    let mut r: Vec<StripAction> = Vec::new();
    let mut k: usize = 0;
    while k < workspace_ids.len()
        invariant
            k <= workspace_ids@.len(),
            r@ == reparent_plan_spec(workspace_ids@, k as nat, strips@, display, origin),
        decreases workspace_ids@.len() - k,
    {
        let id = workspace_ids[k];
        let ghost before = r@;
        let mut found = false;
        let mut i: usize = 0;
        while i < strips.len()
            invariant
                i <= strips@.len(),
                r@ == before + reparents_for(strips@, i as nat, id, display),
                found == exists|j: int| 0 <= j < i && (#[trigger] strips@[j]).id == id,
            decreases strips@.len() - i,
        {
            let strip = strips[i];
            if strip.id == id {
                found = true;
                let elsewhere = match strip.parent {
                    Some(p) => p != display,
                    None => true,
                };
                if elsewhere {
                    r.push(StripAction::ClearTimeout(strip.entity));
                    r.push(StripAction::Attach { strip: strip.entity, display });
                    r.push(StripAction::RefreshSizes(strip.entity));
                }
            }
            proof {
                assert(r@ =~= before + reparents_for(strips@, (i + 1) as nat, id, display));
                if strip.id == id {
                    assert(strips@[i as int].id == id);
                }
            }
            i = i + 1;
        }
        if !found {
            proof {
                assert(!has_strip(strips@, id));
                assert(reparents_for(strips@, strips@.len(), id, display) =~= Seq::empty())
                    by {
                    lemma_no_strip_no_reparents(strips@, strips@.len(), id, display);
                }
            }
            r.push(StripAction::Spawn { id, display, origin });
            assert(r@ =~= before + seq![StripAction::Spawn { id, display, origin }]);
        }
        k = k + 1;
    }
    r
}

proof fn lemma_no_strip_no_reparents(strips: Seq<StripEntry>, n: nat, id: WorkspaceId, display: EntityBits)
    requires
        n <= strips.len(),
        forall|j: int| 0 <= j < n ==> (#[trigger] strips[j]).id != id,
    ensures
        reparents_for(strips, n, id, display) == Seq::<StripAction>::empty(),
    decreases n,
{
    if n > 0 {
        lemma_no_strip_no_reparents(strips, (n - 1) as nat, id, display);
    }
}


/// Flipping the layer twice restores it, and flipping always changes it.
pub proof fn lemma_flipped_twice_restores(layer: FloatingLayer)
    ensures
        flip(flip(layer)) == layer,
        flip(layer) != layer,
{
}

/// The other layer.
pub open spec fn flip(layer: FloatingLayer) -> FloatingLayer {
    match layer {
        FloatingLayer::Front => FloatingLayer::Behind,
        FloatingLayer::Behind => FloatingLayer::Front,
    }
}

/// Removing the marker from `others_marked` leaves it on `keep` alone:
/// every other marked entity is listed, `keep` is not, and no unmarked
/// entity is.
pub proof fn lemma_marker_singleton(items: Seq<Marked>, keep: EntityBits)
    ensures
        forall|i: int|
            0 <= i < items.len() && (#[trigger] items[i]).marked && items[i].entity != keep
                ==> others_marked_spec(items, items.len(), keep).contains(items[i].entity),
        !others_marked_spec(items, items.len(), keep).contains(keep),
        forall|e: EntityBits|
            #[trigger] others_marked_spec(items, items.len(), keep).contains(e) ==> exists|i: int|
                0 <= i < items.len() && (#[trigger] items[i]).entity == e && items[i].marked,
{
    lemma_marker_singleton_prefix(items, items.len(), keep);
}

proof fn lemma_marker_singleton_prefix(items: Seq<Marked>, n: nat, keep: EntityBits)
    requires
        n <= items.len(),
    ensures
        forall|i: int|
            0 <= i < n && (#[trigger] items[i]).marked && items[i].entity != keep
                ==> others_marked_spec(items, n, keep).contains(items[i].entity),
        !others_marked_spec(items, n, keep).contains(keep),
        forall|e: EntityBits|
            #[trigger] others_marked_spec(items, n, keep).contains(e) ==> exists|i: int|
                0 <= i < n && (#[trigger] items[i]).entity == e && items[i].marked,
    decreases n,
{
    if n > 0 {
        lemma_marker_singleton_prefix(items, (n - 1) as nat, keep);
        let prev = others_marked_spec(items, (n - 1) as nat, keep);
        let cur = others_marked_spec(items, n, keep);
        let item = items[n - 1];
        if item.marked && item.entity != keep {
            assert(cur == prev.push(item.entity));
            assert(cur[prev.len() as int] == item.entity);
            assert forall|i: int|
                0 <= i < n && (#[trigger] items[i]).marked && items[i].entity != keep implies cur.contains(
                items[i].entity,
            ) by {
                if i < n - 1 {
                    let k = choose|k: int| 0 <= k < prev.len() && prev[k] == items[i].entity;
                    assert(cur[k] == items[i].entity);
                }
            }
            assert forall|e: EntityBits| #[trigger] cur.contains(e) implies exists|i: int|
                0 <= i < n && (#[trigger] items[i]).entity == e && items[i].marked by {
                let k = choose|k: int| 0 <= k < cur.len() && cur[k] == e;
                if k < prev.len() {
                    assert(prev[k] == e);
                    assert(prev.contains(e));
                } else {
                    assert(items[n - 1].entity == e);
                }
            }
            assert(!cur.contains(keep)) by {
                if cur.contains(keep) {
                    let k = choose|k: int| 0 <= k < cur.len() && cur[k] == keep;
                    if k < prev.len() {
                        assert(prev[k] == keep);
                    }
                }
            }
        }
    }
}

/// A display ends up holding every workspace the system lists for it: for
/// each listed workspace, either the plan spawns a strip for it at the
/// display's top-left corner (it had none), or every strip of it sitting
/// elsewhere loses its orphan timeout, is attached to the display, and has
/// its window sizes refreshed.
pub proof fn lemma_plan_homes_every_workspace(
    workspace_ids: Seq<WorkspaceId>,
    strips: Seq<StripEntry>,
    display: EntityBits,
    origin: Point,
    k: int,
)
    requires
        0 <= k < workspace_ids.len(),
    ensures
        !has_strip(strips, workspace_ids[k]) ==> reparent_plan_spec(
            workspace_ids,
            workspace_ids.len(),
            strips,
            display,
            origin,
        ).contains(StripAction::Spawn { id: workspace_ids[k], display, origin }),
        forall|j: int, a: StripAction|
            0 <= j < strips.len() && (#[trigger] strips[j]).id == workspace_ids[k] && strips[j].parent
                != Some(display) && #[trigger] rehome(strips[j].entity, display).contains(a)
                ==> reparent_plan_spec(
                workspace_ids,
                workspace_ids.len(),
                strips,
                display,
                origin,
            ).contains(a),
{
    let id = workspace_ids[k];
    let plan = reparent_plan_spec(workspace_ids, workspace_ids.len(), strips, display, origin);
    let part = actions_for(strips, id, display, origin);
    lemma_plan_includes(workspace_ids, workspace_ids.len(), strips, display, origin, k);
    if !has_strip(strips, id) {
        assert(part[0] == StripAction::Spawn { id, display, origin });
        assert(part.contains(StripAction::Spawn { id, display, origin }));
    }
    assert forall|j: int, a: StripAction|
        0 <= j < strips.len() && (#[trigger] strips[j]).id == id && strips[j].parent != Some(display)
            && #[trigger] rehome(strips[j].entity, display).contains(a) implies plan.contains(a) by {
        assert(has_strip(strips, id));
        lemma_reparents_include(strips, strips.len(), id, display, j);
        assert(part.contains(a));
    }
}

proof fn lemma_reparents_include(strips: Seq<StripEntry>, n: nat, id: WorkspaceId, display: EntityBits, j: int)
    requires
        0 <= j < n <= strips.len(),
        strips[j].id == id,
        strips[j].parent != Some(display),
    ensures
        forall|a: StripAction|
            #[trigger] rehome(strips[j].entity, display).contains(a) ==> reparents_for(
                strips,
                n,
                id,
                display,
            ).contains(a),
    decreases n,
{
    let prev = reparents_for(strips, (n - 1) as nat, id, display);
    let cur = reparents_for(strips, n, id, display);
    let steps = rehome(strips[j].entity, display);
    if j == n - 1 {
        assert(cur == prev + steps);
        assert forall|a: StripAction| #[trigger] steps.contains(a) implies cur.contains(a) by {
            let i = choose|i: int| 0 <= i < steps.len() && steps[i] == a;
            assert(cur[prev.len() + i] == a);
        }
    } else {
        lemma_reparents_include(strips, (n - 1) as nat, id, display, j);
        assert forall|a: StripAction| #[trigger] steps.contains(a) implies cur.contains(a) by {
            assert(prev.contains(a));
            let i = choose|i: int| 0 <= i < prev.len() && prev[i] == a;
            let s = strips[n - 1];
            if s.id == id && s.parent != Some(display) {
                assert(cur == prev + rehome(s.entity, display));
            }
            assert(cur[i] == a);
        }
    }
}

/// Every step planned for the `k`-th workspace is in the plan.
proof fn lemma_plan_includes(
    workspace_ids: Seq<WorkspaceId>,
    n: nat,
    strips: Seq<StripEntry>,
    display: EntityBits,
    origin: Point,
    k: int,
)
    requires
        0 <= k < n <= workspace_ids.len(),
    ensures
        forall|a: StripAction|
            #[trigger] actions_for(strips, workspace_ids[k], display, origin).contains(a)
                ==> reparent_plan_spec(workspace_ids, n, strips, display, origin).contains(a),
    decreases n,
{
    let prev = reparent_plan_spec(workspace_ids, (n - 1) as nat, strips, display, origin);
    let last = actions_for(strips, workspace_ids[n - 1], display, origin);
    let plan = reparent_plan_spec(workspace_ids, n, strips, display, origin);
    assert(plan == prev + last);
    if k < n - 1 {
        lemma_plan_includes(workspace_ids, (n - 1) as nat, strips, display, origin, k);
    }
    assert forall|a: StripAction|
        #[trigger] actions_for(strips, workspace_ids[k], display, origin).contains(a) implies plan.contains(
        a,
    ) by {
        if k == n - 1 {
            let i = choose|i: int| 0 <= i < last.len() && last[i] == a;
            assert(plan[prev.len() + i] == a);
        } else {
            let i = choose|i: int| 0 <= i < prev.len() && prev[i] == a;
            assert(plan[i] == a);
        }
    }
}

/// The strip a re-homing step concerns.
pub open spec fn step_strip(a: StripAction) -> Option<EntityBits> {
    match a {
        StripAction::ClearTimeout(e) => Some(e),
        StripAction::Attach { strip, .. } => Some(strip),
        StripAction::RefreshSizes(e) => Some(e),
        StripAction::Spawn { .. } => None,
    }
}

/// Whether a step is one the plan may take: it re-homes a strip of a
/// listed workspace that sits elsewhere (attaching it to `display`), or
/// spawns a strip at `origin` on `display` for a listed workspace that has
/// none.
pub open spec fn step_allowed(
    a: StripAction,
    workspace_ids: Seq<WorkspaceId>,
    strips: Seq<StripEntry>,
    display: EntityBits,
    origin: Point,
) -> bool {
    match a {
        StripAction::Spawn { id, display: d, origin: o } => {
            &&& workspace_ids.contains(id)
            &&& !has_strip(strips, id)
            &&& d == display
            &&& o == origin
        },
        _ => {
            &&& a matches StripAction::Attach { display: d, .. } ==> d == display
            &&& exists|j: int|
                0 <= j < strips.len() && (#[trigger] strips[j]).entity == step_strip(a).unwrap()
                    && workspace_ids.contains(strips[j].id) && strips[j].parent != Some(display)
        },
    }
}

/// The plan touches nothing else: strips of unlisted workspaces, and
/// strips already on the display, get no step, and nothing is spawned for a
/// workspace that has a strip.
pub proof fn lemma_plan_touches_only_strays(
    workspace_ids: Seq<WorkspaceId>,
    strips: Seq<StripEntry>,
    display: EntityBits,
    origin: Point,
)
    ensures
        forall|i: int|
            0 <= i < reparent_plan_spec(
                workspace_ids,
                workspace_ids.len(),
                strips,
                display,
                origin,
            ).len() ==> step_allowed(
                #[trigger] reparent_plan_spec(
                    workspace_ids,
                    workspace_ids.len(),
                    strips,
                    display,
                    origin,
                )[i],
                workspace_ids,
                strips,
                display,
                origin,
            ),
{
    lemma_plan_prefix_allowed(workspace_ids, workspace_ids.len(), strips, display, origin);
}

proof fn lemma_plan_prefix_allowed(
    workspace_ids: Seq<WorkspaceId>,
    n: nat,
    strips: Seq<StripEntry>,
    display: EntityBits,
    origin: Point,
)
    requires
        n <= workspace_ids.len(),
    ensures
        forall|i: int|
            0 <= i < reparent_plan_spec(workspace_ids, n, strips, display, origin).len()
                ==> step_allowed(
                #[trigger] reparent_plan_spec(workspace_ids, n, strips, display, origin)[i],
                workspace_ids,
                strips,
                display,
                origin,
            ),
    decreases n,
{
    if n > 0 {
        lemma_plan_prefix_allowed(workspace_ids, (n - 1) as nat, strips, display, origin);
        let prev = reparent_plan_spec(workspace_ids, (n - 1) as nat, strips, display, origin);
        let id = workspace_ids[n - 1];
        let last = actions_for(strips, id, display, origin);
        let plan = reparent_plan_spec(workspace_ids, n, strips, display, origin);
        assert(plan == prev + last);
        assert(workspace_ids.contains(id)) by {
            assert(workspace_ids[n - 1] == id);
        }
        if has_strip(strips, id) {
            lemma_reparents_allowed(workspace_ids, strips, strips.len(), id, display, origin);
        }
        assert forall|i: int| 0 <= i < plan.len() implies step_allowed(
            #[trigger] plan[i],
            workspace_ids,
            strips,
            display,
            origin,
        ) by {
            if i < prev.len() {
                assert(plan[i] == prev[i]);
            } else {
                assert(plan[i] == last[i - prev.len()]);
            }
        }
    }
}

proof fn lemma_reparents_allowed(
    workspace_ids: Seq<WorkspaceId>,
    strips: Seq<StripEntry>,
    n: nat,
    id: WorkspaceId,
    display: EntityBits,
    origin: Point,
)
    requires
        n <= strips.len(),
        workspace_ids.contains(id),
    ensures
        forall|i: int|
            0 <= i < reparents_for(strips, n, id, display).len() ==> step_allowed(
                #[trigger] reparents_for(strips, n, id, display)[i],
                workspace_ids,
                strips,
                display,
                origin,
            ),
    decreases n,
{
    if n > 0 {
        lemma_reparents_allowed(workspace_ids, strips, (n - 1) as nat, id, display, origin);
        let prev = reparents_for(strips, (n - 1) as nat, id, display);
        let cur = reparents_for(strips, n, id, display);
        let s = strips[n - 1];
        if s.id == id && s.parent != Some(display) {
            let steps = rehome(s.entity, display);
            assert(cur == prev + steps);
            assert forall|i: int| 0 <= i < cur.len() implies step_allowed(
                #[trigger] cur[i],
                workspace_ids,
                strips,
                display,
                origin,
            ) by {
                if i < prev.len() {
                    assert(cur[i] == prev[i]);
                } else {
                    assert(cur[i] == steps[i - prev.len()]);
                    assert(strips[n - 1].entity == step_strip(cur[i]).unwrap());
                }
            }
        }
    }
}

} // verus!
