//! Delivery run: the send phase of one run as a small state machine.
//!
//! Messages are composed while the listing is walked newest first, but they
//! must reach the chat oldest first, one at a time, each send acknowledged
//! before the next.  The watermark may advance only when every send of the
//! run succeeded; a single failure withholds it for good, so the next run
//! starts from the same point and delivers the same entries again
//! (at-least-once delivery).
//!
//! The caller performs each send and reports its outcome; every decision —
//! what to send next, in what order, and whether to persist — is made and
//! proved here.

use vstd::prelude::*;

verus! {

/// The send phase of one run.
pub struct DeliveryRun {
    queue: Vec<Vec<u8>>,
    sent: usize,
    failed: bool,
    candidate: Option<Vec<u8>>,
}

/// The view of an optional byte string.
pub open spec fn opt_bytes_view(o: Option<Vec<u8>>) -> Option<Seq<u8>> {
    match o {
        Some(v) => Some(v@),
        None => None,
    }
}

/// A sequence of messages turned from newest-first into sending order.
pub open spec fn oldest_first(msgs: Seq<Seq<u8>>) -> Seq<Seq<u8>> {
    msgs.reverse()
}

impl DeliveryRun {
    /// The messages of this run in sending order (oldest first).
    pub closed spec fn queue_view(self) -> Seq<Seq<u8>> {
        self.queue@.map_values(|m: Vec<u8>| m@)
    }

    /// How many messages the recipient has accepted so far.
    pub closed spec fn sent_count(self) -> int {
        self.sent as int
    }

    /// Whether some send of this run failed.
    pub closed spec fn has_failed(self) -> bool {
        self.failed
    }

    /// The title the watermark should become, if any entry was new.
    pub closed spec fn candidate_view(self) -> Option<Seq<u8>> {
        opt_bytes_view(self.candidate)
    }

    /// The run never counts more sends than it has messages.
    pub open spec fn wf(self) -> bool {
        0 <= self.sent_count() <= self.queue_view().len()
    }

    /// What may be persisted in this state: the candidate watermark when
    /// every message went out and nothing failed, and nothing otherwise.
    pub open spec fn persist_decision(self) -> Option<Seq<u8>> {
        if !self.has_failed() && self.sent_count() == self.queue_view().len() {
            self.candidate_view()
        } else {
            None
        }
    }

    /// Starts the send phase over the messages composed newest first, with
    /// the candidate watermark the detector picked.  The queue is the same
    /// messages reversed into sending order.
    pub fn new(messages_newest_first: Vec<Vec<u8>>, candidate: Option<Vec<u8>>) -> (r: DeliveryRun)
        ensures
            r.wf(),
            !r.has_failed(),
            r.sent_count() == 0,
            r.queue_view() == oldest_first(
                messages_newest_first@.map_values(|m: Vec<u8>| m@),
            ),
            r.candidate_view() == opt_bytes_view(candidate),
    {
        let ghost orig = messages_newest_first@.map_values(|m: Vec<u8>| m@);
        let mut src = messages_newest_first;
        let mut queue: Vec<Vec<u8>> = Vec::new();
        while src.len() > 0
            invariant
                src@.len() + queue@.len() == orig.len(),
                forall|i: int| 0 <= i < src@.len() ==> src@[i]@ == orig[i],
                forall|i: int|
                    0 <= i < queue@.len() ==> #[trigger] queue@[i]@ == orig[orig.len() - 1 - i],
            decreases src@.len(),
        {
            let m = src.pop().unwrap();
            queue.push(m);
        }
        let r = DeliveryRun { queue, sent: 0, failed: false, candidate };
        proof {
            assert(r.queue_view() =~= oldest_first(orig));
        }
        r
    }

    /// The next message to hand to the sender: the oldest not yet accepted,
    /// or nothing once all went out or a send has failed.
    pub fn next_to_send(&self) -> (r: Option<&Vec<u8>>)
        requires
            self.wf(),
        ensures
            r is Some <==> (!self.has_failed() && self.sent_count() < self.queue_view().len()),
            r is Some ==> r->0@ == self.queue_view()[self.sent_count()],
    {
        if self.failed || self.sent >= self.queue.len() {
            None
        } else {
            Some(&self.queue[self.sent])
        }
    }

    /// Records that the recipient accepted the message just sent.
    pub fn record_success(&mut self)
        requires
            old(self).wf(),
            !old(self).has_failed(),
            old(self).sent_count() < old(self).queue_view().len(),
        ensures
            final(self).wf(),
            final(self).sent_count() == old(self).sent_count() + 1,
            final(self).has_failed() == old(self).has_failed(),
            final(self).queue_view() == old(self).queue_view(),
            final(self).candidate_view() == old(self).candidate_view(),
    {
        let n = self.queue.len();
        assert(self.sent < n);
        self.sent = self.sent + 1;
    }

    /// Records that a send failed.  The failure is permanent for this run.
    pub fn record_failure(&mut self)
        requires
            old(self).wf(),
        ensures
            final(self).wf(),
            final(self).has_failed(),
            final(self).sent_count() == old(self).sent_count(),
            final(self).queue_view() == old(self).queue_view(),
            final(self).candidate_view() == old(self).candidate_view(),
    {
        self.failed = true;
    }

    /// What the caller must write to the watermark store: the candidate
    /// exactly when the whole run succeeded and something was new, and
    /// nothing otherwise — in particular, nothing after any failure.
    pub fn watermark_to_persist(&self) -> (r: Option<&Vec<u8>>)
        requires
            self.wf(),
        ensures
            opt_ref_bytes_view(r) == self.persist_decision(),
    {
        if !self.failed && self.sent == self.queue.len() {
            match &self.candidate {
                Some(c) => Some(c),
                None => None,
            }
        } else {
            None
        }
    }
}

/// The view of an optional borrowed byte string.
pub open spec fn opt_ref_bytes_view(o: Option<&Vec<u8>>) -> Option<Seq<u8>> {
    match o {
        Some(v) => Some(v@),
        None => None,
    }
}

/// The sending order is the exact reverse of the composing order: the
/// message sent at step `i` is the one composed at step `len - 1 - i`, so a
/// run over messages composed newest first delivers them oldest first.
pub proof fn lemma_sending_order(msgs: Seq<Seq<u8>>, i: int)
    requires
        0 <= i < msgs.len(),
    ensures
        oldest_first(msgs)[i] == msgs[msgs.len() - 1 - i],
{
}

/// Once any send of a run has failed, the watermark is withheld: the persist
/// decision of a failed run is never a value, however far the run got.
pub proof fn lemma_watermark_withheld_on_failure(r: DeliveryRun)
    requires
        r.has_failed(),
    ensures
        r.persist_decision() is None,
{
}

} // verus!
