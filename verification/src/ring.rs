//! The queue of frames awaiting presentation.

use crate::frame::{frame_views, FrameView, VideoFrame};
use std::collections::VecDeque;
use vstd::prelude::*;

verus! {

/// A first-in, first-out queue of frames with a capacity that is a target, not
/// a limit: a push never fails.
pub struct RingBuffer {
    data: VecDeque<VideoFrame>,
    capacity: usize,
}

impl View for RingBuffer {
    type V = Seq<FrameView>;

    /// The queued frames, head first.
    closed spec fn view(&self) -> Seq<FrameView> {
        frame_views(self.data@)
    }
}

/// The queue after each of `frames` was pushed in turn.
pub open spec fn after_pushes(queue: Seq<FrameView>, frames: Seq<FrameView>) -> Seq<FrameView>
    decreases frames.len(),
{
    if frames.len() == 0 {
        queue
    } else {
        after_pushes(queue.push(frames.first()), frames.drop_first())
    }
}

/// The queue after one pop, which leaves an empty queue empty.
pub open spec fn after_pop(queue: Seq<FrameView>) -> Seq<FrameView> {
    if queue.len() == 0 {
        queue
    } else {
        queue.drop_first()
    }
}

/// The queue after `n` pops.
pub open spec fn after_pops(queue: Seq<FrameView>, n: nat) -> Seq<FrameView>
    decreases n,
{
    if n == 0 {
        queue
    } else {
        after_pops(after_pop(queue), (n - 1) as nat)
    }
}

/// What the next pop returns.
pub open spec fn next_pop(queue: Seq<FrameView>) -> Option<FrameView> {
    if queue.len() == 0 {
        None
    } else {
        Some(queue.first())
    }
}

/// No timestamp is smaller than one before it.
pub open spec fn timestamps_ordered(frames: Seq<FrameView>) -> bool {
    forall|i: int, j: int|
        0 <= i <= j < frames.len() ==> frames[i].timestamp_us <= frames[j].timestamp_us
}

impl RingBuffer {
    /// The capacity target.
    pub closed spec fn spec_capacity(&self) -> usize {
        self.capacity
    }

    /// An empty queue with a capacity target of zero.
    pub fn new() -> (q: Self)
        ensures
            q@ == Seq::<FrameView>::empty(),
            q.spec_capacity() == 0,
    {
        let q = RingBuffer { data: VecDeque::new(), capacity: 0 };
        assert(q@ =~= Seq::<FrameView>::empty());
        q
    }

    /// Number of queued frames.
    pub fn len(&self) -> (n: usize)
        ensures
            n == self@.len(),
    {
        self.data.len()
    }

    /// The capacity target.
    pub fn capacity(&self) -> (c: usize)
        ensures
            c == self.spec_capacity(),
    {
        self.capacity
    }

    /// Sets the capacity target; the queued frames stay.
    pub fn set_capacity(&mut self, capacity: usize)
        ensures
            final(self)@ == old(self)@,
            final(self).spec_capacity() == capacity,
    {
        self.capacity = capacity;
    }

    /// Timestamp of the head frame, which stays queued.
    pub fn head_timestamp(&self) -> (ts: Option<u128>)
        ensures
            ts == match next_pop(self@) {
                Some(f) => Some(f.timestamp_us),
                None => None,
            },
    {
        if self.data.len() == 0 {
            None
        } else {
            Some(self.data[0].timestamp_us)
        }
    }

    /// Removes and returns the head frame, if there is one.
    pub fn get(&mut self) -> (head: Option<VideoFrame>)
        ensures
            match head {
                Some(f) => Some(f@) == next_pop(old(self)@),
                None => next_pop(old(self)@) is None,
            },
            final(self)@ == after_pop(old(self)@),
            final(self).spec_capacity() == old(self).spec_capacity(),
    {
        let head = self.data.pop_front();
        assert(self@ =~= after_pop(old(self)@));
        head
    }

    /// Appends a frame at the tail, whatever the capacity target is.
    pub fn push(&mut self, frame: VideoFrame)
        ensures
            final(self)@ == old(self)@.push(frame@),
            final(self).spec_capacity() == old(self).spec_capacity(),
    {
        self.data.push_back(frame);
        assert(self@ =~= old(self)@.push(frame@));
    }
}

impl Default for RingBuffer {
    fn default() -> (q: Self)
        ensures
            q@ == Seq::<FrameView>::empty(),
            q.spec_capacity() == 0,
    {
        RingBuffer::new()
    }
}

/// Pushing frames one by one appends them in order.
pub proof fn lemma_pushes_append(queue: Seq<FrameView>, frames: Seq<FrameView>)
    ensures
        after_pushes(queue, frames) == queue + frames,
    decreases frames.len(),
{
    if frames.len() == 0 {
        assert(queue + frames =~= queue);
    } else {
        lemma_pushes_append(queue.push(frames.first()), frames.drop_first());
        assert(queue.push(frames.first()) + frames.drop_first() =~= queue + frames);
    }
}

/// `n` pops remove the first `n` frames.
pub proof fn lemma_pops_skip(queue: Seq<FrameView>, n: nat)
    requires
        n <= queue.len(),
    ensures
        after_pops(queue, n) == queue.skip(n as int),
    decreases n,
{
    if n == 0 {
        assert(queue.skip(0) =~= queue);
    } else {
        lemma_pops_skip(queue.drop_first(), (n - 1) as nat);
        assert(queue.drop_first().skip(n - 1) =~= queue.skip(n as int));
    }
}

/// First in, first out: after `frames` were pushed in turn onto an empty
/// queue, the pop that follows `i` earlier pops returns `frames[i]`, and once
/// all are popped the queue is empty. Where no pushed timestamp is smaller than
/// one pushed before it, no popped timestamp is smaller than one popped before
/// it.
pub proof fn lemma_fifo_order(frames: Seq<FrameView>)
    ensures
        forall|i: int|
            0 <= i < frames.len() ==> next_pop(
                #[trigger] after_pops(after_pushes(Seq::empty(), frames), i as nat),
            ) == Some(frames[i]),
        next_pop(after_pops(after_pushes(Seq::empty(), frames), frames.len())) is None,
        timestamps_ordered(frames) ==> forall|i: int, j: int|
            0 <= i <= j < frames.len() ==> next_pop(
                #[trigger] after_pops(after_pushes(Seq::empty(), frames), i as nat),
            ).unwrap().timestamp_us <= next_pop(
                #[trigger] after_pops(after_pushes(Seq::empty(), frames), j as nat),
            ).unwrap().timestamp_us,
{
    let queue = after_pushes(Seq::empty(), frames);
    lemma_pushes_append(Seq::empty(), frames);
    assert(Seq::<FrameView>::empty() + frames =~= frames);
    assert forall|i: int| 0 <= i <= frames.len() implies #[trigger] after_pops(queue, i as nat)
        == frames.skip(i) by {
        lemma_pops_skip(queue, i as nat);
    }
}

} // verus!
