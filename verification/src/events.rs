//! The startup event buffer.
//!
//! The core raises observer-visible events from the first moment, but
//! an observer may not be ready to receive them yet.  Until readiness
//! is signalled, events are queued in order; the readiness signal hands
//! them back in exactly that order for delivery, and later events are
//! delivered at once.

use vstd::prelude::*;

verus! {

/// Model of one queued event.
#[verifier::ext_equal]
pub struct EventModel {
    pub event_name: Seq<char>,
    pub payload: Seq<char>,
}

/// One observer-visible event: its name and its serialized payload.
pub struct QueuedEvent {
    pub event_name: String,
    pub payload: String,
}

impl View for QueuedEvent {
    type V = EventModel;

    open spec fn view(&self) -> EventModel {
        EventModel { event_name: self.event_name@, payload: self.payload@ }
    }
}

pub open spec fn events_view(s: Seq<QueuedEvent>) -> Seq<EventModel> {
    s.map_values(|e: QueuedEvent| e@)
}

/// The buffer: whether the observer is ready, and what waits for it.
pub struct EventBuffer {
    pub is_ready: bool,
    pub queued: Vec<QueuedEvent>,
}

impl EventBuffer {
    /// A fresh buffer: not ready, nothing queued.
    pub fn new() -> (r: EventBuffer)
        ensures
            !r.is_ready,
            r.queued@.len() == 0,
    {
        EventBuffer { is_ready: false, queued: Vec::new() }
    }

    /// Offers one event: delivered now when the observer is ready,
    /// queued behind the earlier ones otherwise.
    pub fn offer(&mut self, event: QueuedEvent) -> (deliver_now: bool)
        ensures
            deliver_now == old(self).is_ready,
            final(self).is_ready == old(self).is_ready,
            deliver_now ==> final(self).queued@ == old(self).queued@,
            !deliver_now ==> events_view(final(self).queued@) == events_view(
                old(self).queued@,
            ).push(event@),
    {
        if self.is_ready {
            true
        } else {
            self.queued.push(event);
            proof {
                assert(events_view(self.queued@) =~= events_view(old(self).queued@).push(
                    event@,
                ));
            }
            false
        }
    }

    /// Signals readiness: every buffered event comes back in arrival
    /// order for delivery, the buffer empties, and later offers deliver
    /// at once.
    pub fn mark_ready(&mut self) -> (flushed: Vec<QueuedEvent>)
        ensures
            final(self).is_ready,
            final(self).queued@.len() == 0,
            events_view(flushed@) == events_view(old(self).queued@),
    {
        self.is_ready = true;
        let mut flushed: Vec<QueuedEvent> = Vec::new();
        core::mem::swap(&mut flushed, &mut self.queued);
        proof {
            assert(events_view(flushed@) =~= events_view(old(self).queued@));
        }
        flushed
    }
}

} // verus!
