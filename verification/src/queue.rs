use vstd::prelude::*;

use crate::frame::Frame;
use crate::frame::FrameView;

verus! {

// The frame delivery queue between the capture thread and the consumer:
// bounded at one frame, latest-wins. A producer never waits — a frame the
// consumer did not fetch in time is simply replaced, because recency beats
// completeness for a live view.

/// A one-slot, latest-wins frame channel.
pub struct FrameQueue {
    slot: Option<Frame>,
}

impl View for FrameQueue {
    type V = Option<FrameView>;

    closed spec fn view(&self) -> Option<FrameView> {
        match self.slot {
            Some(f) => Some(f@),
            None => None,
        }
    }
}

impl FrameQueue {
    /// An empty queue.
    pub fn new() -> (r: FrameQueue)
        ensures
            r@ is None,
    {
        FrameQueue { slot: None }
    }

    /// Delivers a frame. This never fails and never waits: whatever still sat
    /// in the slot is dropped in favour of the newer frame.
    pub fn publish(&mut self, f: Frame)
        ensures
            final(self)@ == Some(f@),
    {
        self.slot = Some(f);
    }

    /// Takes the most recently delivered frame, leaving the slot empty; `None`
    /// when the producer has delivered nothing since the last take.
    pub fn take(&mut self) -> (r: Option<Frame>)
        ensures
            final(self)@ is None,
            (r is Some) == (old(self)@ is Some),
            r matches Some(f) ==> old(self)@ == Some(f@),
    {
        self.slot.take()
    }

    /// Whether a frame is waiting.
    pub fn is_occupied(&self) -> (r: bool)
        ensures
            r == (self@ is Some),
    {
        match self.slot {
            Some(_) => true,
            None => false,
        }
    }
}

/// The queue contents after a burst of publishes.
pub open spec fn after_publishes(q0: Option<FrameView>, fs: Seq<FrameView>) -> Option<FrameView>
    decreases fs.len(),
{
    if fs.len() == 0 {
        q0
    } else {
        after_publishes(Some(fs.first()), fs.drop_first())
    }
}

/// Publishing any number of frames, however fast, leaves exactly the most
/// recent one retrievable — older ones are dropped, the producer is never
/// held up, and nothing is reordered.
pub proof fn lemma_latest_wins(q0: Option<FrameView>, fs: Seq<FrameView>)
    requires
        fs.len() > 0,
    ensures
        after_publishes(q0, fs) == Some(fs.last()),
    decreases fs.len(),
{
    if fs.len() == 1 {
        assert(fs.drop_first().len() == 0);
        assert(after_publishes(Some(fs.first()), fs.drop_first()) == Some(fs.first()));
        assert(fs.first() == fs.last());
    } else {
        lemma_latest_wins(Some(fs.first()), fs.drop_first());
        assert(fs.drop_first().last() == fs.last());
    }
}

} // verus!
