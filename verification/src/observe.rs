//! The sink that backends report events to.
use std::sync::Arc;
use vstd::prelude::*;
use crate::event::TransitEvent;

verus! {

/// A sink that receives events as a link does work.
///
/// Implementations must be cheap and must not block. The method takes `&self`, so one
/// observer can be shared; an accumulating observer needs interior mutability.
pub trait Observer: Send + Sync {
    /// Called once per event, in the order of their sequence numbers.
    fn on_event(&self, event: &TransitEvent);
}

/// Whether an observer was handed an event: what it promises of the call holds.
pub open spec fn handed<O: Observer + ?Sized>(observer: &O, event: &TransitEvent) -> bool {
    call_ensures(O::on_event, (observer, event), ())
}

/// A shared observer.
pub type SharedObserver = Arc<dyn Observer>;

/// An observer that discards every event.
#[derive(Clone, Copy, Debug, Default)]
pub struct NoopObserver;

impl Observer for NoopObserver {
    fn on_event(&self, event: &TransitEvent) {
    }
}

/// An observer that hands every event to several others, in turn.
pub struct FanOut {
    /// The observers, in the order in which they are called.
    pub observers: Vec<SharedObserver>,
}

impl FanOut {
    /// A fan-out over the given observers.
    pub fn new(observers: Vec<SharedObserver>) -> (r: FanOut)
        ensures
            r.observers@ == observers@,
    {
        FanOut { observers }
    }
}

impl Observer for FanOut {
    fn on_event(&self, event: &TransitEvent)
        ensures
            forall|i: int|
                0 <= i < self.observers@.len() ==> handed(
                    &*(#[trigger] self.observers@[i]),
                    event,
                ),
    {
        let mut i: usize = 0;
        while i < self.observers.len()
            invariant
                i <= self.observers@.len(),
                forall|j: int|
                    0 <= j < i ==> handed(&*(#[trigger] self.observers@[j]), event),
            decreases self.observers@.len() - i,
        {
            self.observers[i].on_event(event);
            i = i + 1;
        }
    }
}

} // verus!
