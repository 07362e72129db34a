//! The offline event queue: a durable per-conversation backlog of routing
//! events for participants who were not connected when the event was
//! routed. Delivery is at least once: an event is deleted only after a
//! successful send during replay, so receivers must tolerate duplicates,
//! idempotent on the event id.

use vstd::prelude::*;
use crate::envelope::{Envelope, EnvelopeView};

verus! {

/// The mathematical value of a [`PendingOfflineEvent`].
pub struct PendingView {
    pub id: u64,
    pub conversation_id: Seq<char>,
    pub envelope: EnvelopeView,
    pub timestamp: u64,
}

/// One queued routing event, keyed by its target conversation.
pub struct PendingOfflineEvent {
    pub id: u64,
    pub conversation_id: String,
    pub envelope: Envelope,
    pub timestamp: u64,
}

impl View for PendingOfflineEvent {
    type V = PendingView;

    open spec fn view(&self) -> PendingView {
        PendingView {
            id: self.id,
            conversation_id: self.conversation_id@,
            envelope: self.envelope@,
            timestamp: self.timestamp,
        }
    }
}

impl Clone for PendingOfflineEvent {
    fn clone(&self) -> (r: Self)
        ensures
            r@ == self@,
    {
        PendingOfflineEvent {
            id: self.id,
            conversation_id: self.conversation_id.clone(),
            envelope: self.envelope.clone(),
            timestamp: self.timestamp,
        }
    }
}

/// The backlog itself. Event ids are drawn from an internal counter, so
/// every stored event has a distinct id below the counter.
pub struct OfflineQueue {
    events: Vec<PendingOfflineEvent>,
    next_id: u64,
}

impl View for OfflineQueue {
    type V = Seq<PendingView>;

    closed spec fn view(&self) -> Seq<PendingView> {
        self.events@.map_values(|e: PendingOfflineEvent| e@)
    }
}

impl OfflineQueue {
    pub closed spec fn wf(&self) -> bool {
        forall|i: int| 0 <= i < self@.len() ==> (#[trigger] self@[i]).id < self.next()
    }

    /// The next event id to be assigned.
    pub closed spec fn next(&self) -> u64 {
        self.next_id
    }

    pub fn new() -> (r: Self)
        ensures
            r.wf(),
            r@ == Seq::<PendingView>::empty(),
            r.next() == 0,
    {
        let r = OfflineQueue { events: Vec::new(), next_id: 0 };
        proof {
            assert(r@ =~= Seq::<PendingView>::empty());
        }
        r
    }

    pub fn len(&self) -> (r: usize)
        ensures
            r == self@.len(),
    {
        self.events.len()
    }

    /// The next event id, so the hosting layer can watch the counter's
    /// machine limit before asking for more routing.
    pub fn next_event_id(&self) -> (r: u64)
        ensures
            r == self.next(),
    {
        self.next_id
    }

    pub fn event_at(&self, i: usize) -> (r: &PendingOfflineEvent)
        requires
            i < self@.len(),
        ensures
            r@ == self@[i as int],
    {
        &self.events[i]
    }

    /// Appends one event for the conversation, under a fresh id. The id
    /// counter is a machine limit: it cannot wrap.
    pub fn store(&mut self, conversation_id: &String, envelope: &Envelope, now: u64)
        requires
            old(self).wf(),
            old(self).next() < u64::MAX,
        ensures
            final(self).wf(),
            final(self)@.len() == old(self)@.len() + 1,
            final(self)@.subrange(0, old(self)@.len() as int) == old(self)@,
            final(self)@.last() == (PendingView {
                id: old(self).next(),
                conversation_id: conversation_id@,
                envelope: envelope@,
                timestamp: now,
            }),
            final(self).next() == old(self).next() + 1,
    {
        let event = PendingOfflineEvent {
            id: self.next_id,
            conversation_id: conversation_id.clone(),
            envelope: envelope.clone(),
            timestamp: now,
        };
        self.next_id = self.next_id + 1;
        proof {
            assert(self.events@.push(event).map_values(|e: PendingOfflineEvent| e@) =~= self@.push(
                event@,
            ));
        }
        self.events.push(event);
        proof {
            assert(final(self)@.subrange(0, old(self)@.len() as int) =~= old(self)@);
        }
    }

    /// Removes the events whose ids are listed, after the registry confirmed
    /// their delivery during replay.
    pub fn delete(&mut self, event_ids: &Vec<u64>)
        requires
            old(self).wf(),
        ensures
            final(self).wf(),
            final(self)@ == old(self)@.filter(|e: PendingView| !event_ids@.contains(e.id)),
            final(self).next() == old(self).next(),
    {
        let mut kept: Vec<PendingOfflineEvent> = Vec::new();
        let mut i: usize = 0;
        proof {
            assert(self@.subrange(0, 0) =~= Seq::<PendingView>::empty());
            assert(kept@.map_values(|e: PendingOfflineEvent| e@) =~= Seq::<PendingView>::empty()
                .filter(|e: PendingView| !event_ids@.contains(e.id)));
        }
        while i < self.events.len()
            invariant
                self.wf(),
                i <= self.events@.len(),
                self@.len() == self.events@.len(),
                kept@.map_values(|e: PendingOfflineEvent| e@) == self@.subrange(0, i as int).filter(
                    |e: PendingView| !event_ids@.contains(e.id),
                ),
                forall|k: int| 0 <= k < kept@.len() ==> (#[trigger] kept@[k]).id < self.next(),
            decreases self.events@.len() - i,
        {
            let ghost prefix = self@.subrange(0, i as int);
            let ghost pred = |e: PendingView| !event_ids@.contains(e.id);
            let mut listed = false;
            let mut j: usize = 0;
            while j < event_ids.len()
                invariant
                    i < self.events@.len(),
                    self@.len() == self.events@.len(),
                    j <= event_ids@.len(),
                    listed <==> exists|k: int| 0 <= k < j && event_ids@[k] == self@[i as int].id,
                decreases event_ids@.len() - j,
            {
                if event_ids[j] == self.events[i].id {
                    listed = true;
                }
                j = j + 1;
            }
            if !listed {
                kept.push(self.events[i].clone());
            }
            proof {
                assert(listed == event_ids@.contains(self@[i as int].id));
                prefix.lemma_filter_push(self@[i as int], pred);
                assert(self@.subrange(0, i as int + 1) =~= prefix.push(self@[i as int]));
                if pred(self@[i as int]) {
                    assert(kept@.map_values(|e: PendingOfflineEvent| e@) =~= prefix.filter(
                        pred,
                    ).push(self@[i as int]));
                }
            }
            i = i + 1;
        }
        proof {
            assert(self@.subrange(0, self@.len() as int) =~= self@);
        }
        self.events = kept;
    }
}

} // verus!
