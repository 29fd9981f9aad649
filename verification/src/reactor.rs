//! Bookkeeping of the reactor that turns "a port has a message" into "a
//! waker fires".
//!
//! One process-wide kqueue holds every registered port; its thread blocks
//! in `kevent` and wakes whoever asked about each port that became ready.
//! Registrations are one-shot and must be re-armed before every wait: a
//! message that arrived before its registration produces no event.
use vstd::prelude::*;

use std::collections::HashMap;
use vstd::std_specs::iter::IteratorSpec;

use crate::rights::RecvRight;

verus! {

/// A port's registration with the reactor, torn down when its owner goes.
pub struct Interest {
    port: u32,
    armed: bool,
}

impl Interest {
    /// An interest in `port`, not yet armed.
    pub fn new(port: &RecvRight) -> (r: Self)
        ensures
            r.port_spec() == port@,
            !r.armed_spec(),
    {
        Interest { port: port.as_raw(), armed: false }
    }

    pub closed spec fn port_spec(&self) -> u32 {
        self.port
    }

    pub closed spec fn armed_spec(&self) -> bool {
        self.armed
    }

    /// The port this interest is in.
    pub fn port(&self) -> (r: u32)
        ensures
            r == self.port_spec(),
    {
        self.port
    }

    /// Records the outcome of arming a one-shot registration: from a
    /// success on, dropping the interest must remove the registration.
    pub fn record_arm<E>(&mut self, outcome: Result<(), E>) -> (r: Result<(), E>)
        ensures
            r == outcome,
            final(self).port_spec() == old(self).port_spec(),
            final(self).armed_spec() == (old(self).armed_spec() || outcome is Ok),
    {
        if outcome.is_ok() {
            self.armed = true;
        }
        outcome
    }

    /// Whether dropping this interest must remove a registration: only
    /// once one was armed, so that a dropped future leaves nothing behind
    /// that could wake into a freed task.
    pub fn needs_disarm(&self) -> (r: bool)
        ensures
            r == self.armed_spec(),
    {
        self.armed
    }
}

/// What `kevent` reported to the reactor thread.
pub enum KeventResult {
    /// The wait was interrupted by a signal.
    Interrupted,
    /// The kqueue is unusable.
    Failed,
    /// These registrations fired; each identifier is the port name the
    /// registration was made with.
    Ready(Vec<usize>),
}

/// What the reactor thread does next.
pub enum ReactorStep<W> {
    /// Wait again.
    Continue,
    /// Wake these and wait again.
    Wake(Vec<W>),
    /// Wake everyone, so that each receive reports the real error rather
    /// than hanging forever, and stop.
    Stop(Vec<W>),
}

/// The wakers waiting on each port. A port is only ever awaited by one
/// task, so a new registration replaces the previous one (whose future was
/// dropped).
pub struct Registrations<W> {
    wakers: HashMap<u32, W>,
}

impl<W> View for Registrations<W> {
    type V = Map<u32, W>;

    closed spec fn view(&self) -> Map<u32, W> {
        self.wakers@
    }
}

/// A change the reactor makes to its kqueue for one port.
#[derive(Clone, Copy, PartialEq, Eq, Debug, Structural)]
pub enum KqueueChange {
    /// Add a one-shot registration for the port.
    AddOneShot(u32),
    /// Delete the port's registration. Failing to is harmless: the
    /// registration was already consumed.
    Delete(u32),
}

/// The wakers of `ports`, in order.
pub open spec fn wakers_of<W>(m: Map<u32, W>, ports: Seq<u32>) -> Seq<W> {
    ports.map_values(|p: u32| m[p])
}

/// Whether `wakers` is every waker of `m`, each once, in some order.
pub open spec fn all_wakers_of<W>(m: Map<u32, W>, wakers: Seq<W>) -> bool {
    exists|ports: Seq<u32>|
        {
            &&& ports.no_duplicates()
            &&& ports.to_set() == m.dom()
            &&& wakers == wakers_of(m, ports)
        }
}

/// The wakers woken, in order, when `ports` fire one after another: each
/// port's waker, if it still has one when its turn comes.
pub open spec fn wake_order<W>(m: Map<u32, W>, ports: Seq<u32>) -> Seq<W>
    decreases ports.len(),
{
    if ports.len() == 0 {
        Seq::empty()
    } else {
        let before = ports.drop_last();
        let prev = wake_order(m, before);
        let left = m.remove_keys(before.to_set());
        if left.contains_key(ports.last()) {
            prev.push(left[ports.last()])
        } else {
            prev
        }
    }
}

impl<W> Registrations<W> {
    pub fn new() -> (r: Self)
        ensures
            r@ == Map::<u32, W>::empty(),
    {
        Registrations { wakers: HashMap::new() }
    }

    /// Records `waker` for `port`, replacing any earlier one. This happens
    /// before the registration is armed: the reverse order races, as the
    /// event could be seen before its waker is stored.
    pub fn insert(&mut self, port: u32, waker: W)
        ensures
            final(self)@ == old(self)@.insert(port, waker),
    {
        self.wakers.insert(port, waker);
    }

    /// Takes the waker recorded for `port`, if any: when its registration
    /// fired, when arming it failed, or when its owner went away.
    pub fn remove(&mut self, port: u32) -> (r: Option<W>)
        ensures
            final(self)@ == old(self)@.remove(port),
            r == (if old(self)@.contains_key(port) {
                Some(old(self)@[port])
            } else {
                None::<W>
            }),
    {
        self.wakers.remove(&port)
    }

    /// The first half of arming `port`: records `waker` for it, and only
    /// then names the registration to add, so the event cannot be seen
    /// before its waker is stored.
    pub fn begin_arm(&mut self, port: u32, waker: W) -> (r: KqueueChange)
        ensures
            final(self)@ == old(self)@.insert(port, waker),
            r == KqueueChange::AddOneShot(port),
    {
        self.wakers.insert(port, waker);
        KqueueChange::AddOneShot(port)
    }

    /// The second half of arming `port`, given what adding the
    /// registration returned: on failure the waker recorded for it is
    /// dropped again, since nothing will ever fire it.
    pub fn finish_arm<E>(&mut self, port: u32, outcome: Result<(), E>) -> (r: Result<(), E>)
        ensures
            r == outcome,
            outcome is Ok ==> final(self)@ == old(self)@,
            outcome is Err ==> final(self)@ == old(self)@.remove(port),
    {
        if outcome.is_err() {
            self.wakers.remove(&port);
        }
        outcome
    }

    /// Disarming `port`: its waker is dropped first, then its registration
    /// is deleted.
    pub fn begin_disarm(&mut self, port: u32) -> (r: KqueueChange)
        ensures
            final(self)@ == old(self)@.remove(port),
            r == KqueueChange::Delete(port),
    {
        self.wakers.remove(&port);
        KqueueChange::Delete(port)
    }

    /// Takes every recorded waker, in no particular order.
    pub fn drain(&mut self) -> (r: Vec<W>)
        ensures
            final(self)@ == Map::<u32, W>::empty(),
            all_wakers_of(old(self)@, r@),
    {
        let ghost m = self.wakers@;
        let ghost ks = vstd::std_specs::hash::spec_keys_iter(&self.wakers).remaining();
        let mut ports: Vec<u32> = Vec::new();
        for k in it: self.wakers.keys()
            invariant
                it.seq() == ks,
                ks == vstd::std_specs::hash::spec_keys_iter(&self.wakers).remaining(),
                ports@.len() == it.index(),
                forall|i: int| 0 <= i < it.index() ==> ports@[i] == *(#[trigger] ks[i]),
        {
            ports.push(*k);
        }
        proof {
            assert(ports@ =~= ks.unref());
            assert(ks.unref().to_set() == m.dom());
            assert(ports@.no_duplicates()) by {
                assert forall|i: int, j: int|
                    0 <= i < ports@.len() && 0 <= j < ports@.len() && i != j implies ports@[i]
                    != ports@[j] by {
                    assert(ks[i] != ks[j]);
                }
            }
        }
        let mut r: Vec<W> = Vec::new();
        let mut i: usize = 0;
        while i < ports.len()
            invariant
                i <= ports@.len(),
                ports@.no_duplicates(),
                ports@.to_set() == m.dom(),
                self.wakers@ == m.remove_keys(ports@.take(i as int).to_set()),
                r@ == wakers_of(m, ports@.take(i as int)),
            decreases ports@.len() - i,
        {
            let port = ports[i];
            proof {
                assert(ports@.to_set().contains(port));
                assert(!ports@.take(i as int).contains(port)) by {
                    if ports@.take(i as int).contains(port) {
                        let j = choose|j: int| 0 <= j < i && ports@.take(i as int)[j] == port;
                        assert(ports@[j] == ports@[i as int]);
                    }
                }
                assert(ports@.take(i as int + 1) =~= ports@.take(i as int).push(port));
                ports@.take(i as int).lemma_push_to_set_commute(port);
            }
            match self.wakers.remove(&port) {
                Some(w) => {
                    r.push(w);
                },
                None => {
                    assert(false);
                },
            }
            proof {
                assert(self.wakers@ =~= m.remove_keys(ports@.take(i as int + 1).to_set()));
                assert(r@ =~= wakers_of(m, ports@.take(i as int + 1)));
            }
            i = i + 1;
        }
        proof {
            assert(ports@.take(ports@.len() as int) =~= ports@);
            assert(self.wakers@ =~= Map::<u32, W>::empty());
        }
        r
    }

    /// What the reactor thread does with what `kevent` reported: wait again
    /// after an interruption; wake the waiter of each port that fired; and
    /// when the kqueue fails, wake everyone and stop.
    pub fn on_kevent(&mut self, result: KeventResult) -> (r: ReactorStep<W>)
        ensures
            match result {
                KeventResult::Interrupted => r is Continue && final(self)@ == old(self)@,
                KeventResult::Failed => {
                    &&& final(self)@ == Map::<u32, W>::empty()
                    &&& match r {
                        ReactorStep::Stop(woken) => all_wakers_of(old(self)@, woken@),
                        _ => false,
                    }
                },
                KeventResult::Ready(idents) => {
                    let ports = idents@.map_values(|id: usize| id as u32);
                    &&& final(self)@ == old(self)@.remove_keys(ports.to_set())
                    &&& match r {
                        ReactorStep::Wake(woken) => woken@ == wake_order(old(self)@, ports),
                        _ => false,
                    }
                },
            },
    {
        match result {
            KeventResult::Interrupted => ReactorStep::Continue,
            KeventResult::Failed => ReactorStep::Stop(self.drain()),
            KeventResult::Ready(idents) => {
                let ghost m = self.wakers@;
                let ghost ports = idents@.map_values(|id: usize| id as u32);
                let mut woken: Vec<W> = Vec::new();
                let mut i: usize = 0;
                while i < idents.len()
                    invariant
                        i <= idents@.len(),
                        ports == idents@.map_values(|id: usize| id as u32),
                        self.wakers@ == m.remove_keys(ports.take(i as int).to_set()),
                        woken@ == wake_order(m, ports.take(i as int)),
                    decreases idents@.len() - i,
                {
                    // The identifier holds the port name the registration
                    // was made with, so the narrowing is exact.
                    let port = #[verifier::truncate] (idents[i] as u32);
                    proof {
                        assert(ports.take(i as int + 1).drop_last() =~= ports.take(i as int));
                        assert(ports.take(i as int + 1).last() == port);
                    }
                    if let Some(w) = self.wakers.remove(&port) {
                        woken.push(w);
                    }
                    proof {
                        assert(ports.take(i as int + 1) =~= ports.take(i as int).push(port));
                        ports.take(i as int).lemma_push_to_set_commute(port);
                        assert(self.wakers@ =~= m.remove_keys(ports.take(i as int + 1).to_set()));
                    }
                    i = i + 1;
                }
                proof {
                    assert(ports.take(idents@.len() as int) =~= ports);
                }
                ReactorStep::Wake(woken)
            },
        }
    }
}


/// A registration is one-shot: once its port fires, the waker recorded
/// last for that port is woken, exactly once, however often the port is
/// reported.
pub proof fn lemma_fired_port_wakes_its_waker_once<W>(m: Map<u32, W>, port: u32, waker: W)
    ensures
        wake_order(m.insert(port, waker), seq![port]) == seq![waker],
        wake_order(m.insert(port, waker), seq![port, port]) == seq![waker],
{
    let m2 = m.insert(port, waker);
    let one = seq![port];
    let two = seq![port, port];
    assert(one.drop_last() =~= Seq::<u32>::empty());
    assert(Seq::<u32>::empty().to_set() =~= Set::<u32>::empty());
    assert(m2.remove_keys(Set::<u32>::empty()) =~= m2);
    assert(wake_order(m2, Seq::<u32>::empty()) == Seq::<W>::empty());
    assert(wake_order(m2, one) =~= seq![waker]);
    assert(two.drop_last() =~= one);
    assert(one.to_set() =~= set![port]);
    assert(!m2.remove_keys(one.to_set()).contains_key(port));
}

/// A port whose waker was taken (its owner went away, or arming failed)
/// wakes nothing when it fires.
pub proof fn lemma_disarmed_port_wakes_nothing<W>(m: Map<u32, W>, port: u32)
    ensures
        wake_order(m.remove(port), seq![port]) == Seq::<W>::empty(),
{
    let m2 = m.remove(port);
    assert(seq![port].drop_last() =~= Seq::<u32>::empty());
    assert(Seq::<u32>::empty().to_set() =~= Set::<u32>::empty());
    assert(m2.remove_keys(Set::<u32>::empty()) =~= m2);
    assert(wake_order(m2, Seq::<u32>::empty()) == Seq::<W>::empty());
    assert(!m2.contains_key(port));
    assert(seq![port].last() == port);
}

/// Arming either leaves the new waker in place (the registration was
/// added) or leaves no waker for the port at all (it was not), whatever the
/// port had before; disarming leaves no waker for it either.
pub proof fn lemma_arm_leaves_waker_or_nothing<W>(m: Map<u32, W>, port: u32, waker: W)
    ensures
        m.insert(port, waker).contains_key(port),
        m.insert(port, waker)[port] == waker,
        m.insert(port, waker).remove(port) == m.remove(port),
        !m.remove(port).contains_key(port),
{
    assert(m.insert(port, waker).remove(port) =~= m.remove(port));
}

} // verus!
