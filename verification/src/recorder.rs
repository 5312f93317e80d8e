//! The store that accumulates events for later analysis.
use vstd::prelude::*;
use crate::event;
use crate::event::{EventView, TransitEvent};

verus! {

/// Keeps every event that it is handed, in the order of arrival.
#[derive(Debug)]
pub struct Recorder {
    /// The events so far.
    pub events: Vec<TransitEvent>,
}

impl View for Recorder {
    type V = Seq<EventView>;

    open spec fn view(&self) -> Seq<EventView> {
        event::events_view(self.events@)
    }
}

impl Default for Recorder {
    fn default() -> (r: Recorder)
        ensures
            r@ == Seq::<EventView>::empty(),
    {
        Recorder::new()
    }
}

impl Recorder {
    /// An empty recorder.
    pub fn new() -> (r: Recorder)
        ensures
            r@ == Seq::<EventView>::empty(),
    {
        let r = Recorder { events: Vec::new() };
        assert(r@ =~= Seq::empty());
        r
    }

    /// Keeps one more event.
    pub fn on_event(&mut self, event: &TransitEvent)
        ensures
            final(self)@ == old(self)@.push(event@),
    {
        let ghost before = self@;
        self.events.push(event.clone());
        assert(self@ =~= before.push(event@));
    }

    /// A copy of the events so far.
    pub fn events(&self) -> (r: Vec<TransitEvent>)
        ensures
            event::events_view(r@) == self@,
    {
        event::clone_events(&self.events)
    }

    /// How many events there are.
    pub fn len(&self) -> (r: usize)
        ensures
            r == self@.len(),
    {
        self.events.len()
    }

    /// Whether there are no events.
    pub fn is_empty(&self) -> (r: bool)
        ensures
            r == (self@.len() == 0),
    {
        self.len() == 0
    }

    /// Hands the events out and forgets them.
    pub fn drain(&mut self) -> (r: Vec<TransitEvent>)
        ensures
            event::events_view(r@) == old(self)@,
            final(self)@ == Seq::<EventView>::empty(),
    {
        let mut out: Vec<TransitEvent> = Vec::new();
        std::mem::swap(&mut out, &mut self.events);
        assert(self@ =~= Seq::empty());
        out
    }
}

} // verus!
