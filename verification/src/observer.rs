//! The observer pattern: many observers per observable, each registered
//! under an id that is unique for the session.

use vstd::prelude::*;

verus! {

/// Hands out observer ids, each one never seen before in this session.
pub struct IdGenerator {
    pub used_ids: Vec<usize>,
    pub next_id: usize,
}

impl IdGenerator {
    /// Every recorded id lies below the next candidate.
    pub open spec fn wf(&self) -> bool {
        forall|k: int| 0 <= k < self.used_ids@.len() ==> (#[trigger] self.used_ids@[k]) < self.next_id
    }

    /// A generator that has handed out nothing.
    pub fn new() -> (r: Self)
        ensures
            r.wf(),
            r.used_ids@.len() == 0,
    {
        IdGenerator { used_ids: Vec::new(), next_id: 0 }
    }

    /// A unique id for this session: never returned before, and recorded
    /// so it never will be again.
    pub fn generate_observer_id(&mut self) -> (r: usize)
        requires
            old(self).wf(),
            old(self).next_id < usize::MAX,
        ensures
            final(self).wf(),
            !crate::world::World::queued(old(self).used_ids@, r as int),
            final(self).used_ids@ == old(self).used_ids@.push(r),
    {
        let id = self.next_id;
        proof {
            assert forall|k: int|
                0 <= k < self.used_ids@.len() implies (#[trigger] self.used_ids@[k]) != id by {}
        }
        self.used_ids.push(id);
        self.next_id = self.next_id + 1;
        id
    }
}

/// What an observer keeps to stay registered: its id with its observable.
pub struct ObserverData {
    pub id: usize,
    pub observable: usize,
}

/// One of many listeners on an observable; each implementor keeps a unique
/// observer id from the observable's generator.
pub trait Observer {
    /// This observer's session-unique id.
    fn id(&self) -> usize;

    /// React to the observable's current state.
    fn update(&mut self);

    /// Called when this observer becomes the input focus.
    fn become_focus(&mut self);
}

/// A source of events that observers register on.
pub trait Observable {
    /// Tell every registered observer to update.
    fn notify_observers(&mut self);

    /// Tell only the focused observer to update.
    fn notify_focus(&mut self);

    /// Register one more observer, by id.
    fn add_observer(&mut self, id: usize);
}

} // verus!
