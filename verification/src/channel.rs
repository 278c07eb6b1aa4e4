//! The bounded handoff from the network task to the render task: a
//! fixed-capacity FIFO of 3-byte wire records with a non-blocking producer
//! and a non-blocking consumer. Neither side ever waits: a write to a full
//! channel drops the oldest pending record instead of blocking, and a read
//! from an empty channel reports that nothing is pending.

use vstd::prelude::*;

verus! {

/// Number of 3-byte records the channel can hold at once.
pub const CHANNEL_CAPACITY: usize = 21;

/// The pending queue after a write: the new record is appended in producer
/// order; at capacity, exactly the one oldest pending record is dropped first.
pub open spec fn spec_channel_write(q: Seq<(u8, u8, u8)>, r: (u8, u8, u8)) -> Seq<(u8, u8, u8)> {
    if q.len() < CHANNEL_CAPACITY {
        q.push(r)
    } else {
        q.subrange(1, q.len() as int).push(r)
    }
}

/// The bounded FIFO of wire records between the two tasks.
pub struct PixelChannel {
    records: Vec<(u8, u8, u8)>,
}

impl View for PixelChannel {
    type V = Seq<(u8, u8, u8)>;

    closed spec fn view(&self) -> Seq<(u8, u8, u8)> {
        self.records@
    }
}

impl PixelChannel {
    /// The channel never holds more than its capacity.
    pub open spec fn wf(&self) -> bool {
        self@.len() <= CHANNEL_CAPACITY
    }

    /// Create an empty channel.
    pub fn new() -> (c: PixelChannel)
        ensures
            c.wf(),
            c@ == Seq::<(u8, u8, u8)>::empty(),
    {
        PixelChannel { records: Vec::new() }
    }

    /// Number of pending records.
    pub fn len(&self) -> (n: usize)
        ensures
            n == self@.len(),
    {
        self.records.len()
    }

    /// Best-effort producer side: never blocks. Returns whether a pending
    /// record had to be dropped to make room.
    pub fn write(&mut self, b0: u8, b1: u8, b2: u8) -> (dropped: bool)
        requires
            old(self).wf(),
        ensures
            final(self).wf(),
            final(self)@ == spec_channel_write(old(self)@, (b0, b1, b2)),
            dropped == (old(self)@.len() == CHANNEL_CAPACITY),
    {
        let mut dropped = false;
        if self.records.len() == CHANNEL_CAPACITY {
            self.records.remove(0);
            dropped = true;
        }
        self.records.push((b0, b1, b2));
        proof {
            if dropped {
                assert(self@ =~= old(self)@.subrange(1, old(self)@.len() as int).push((b0, b1, b2)));
            }
        }
        dropped
    }

    /// Non-blocking consumer side: the oldest pending record, or `None` when
    /// nothing is pending, which is the normal idle case and no error.
    pub fn try_read(&mut self) -> (r: Option<(u8, u8, u8)>)
        requires
            old(self).wf(),
        ensures
            final(self).wf(),
            old(self)@.len() == 0 ==> r is None && final(self)@ == old(self)@,
            old(self)@.len() > 0 ==> r == Some(old(self)@[0]) && final(self)@ == old(self)@.subrange(
                1,
                old(self)@.len() as int,
            ),
    {
        if self.records.len() == 0 {
            None
        } else {
            let rec = self.records.remove(0);
            proof {
                assert(self@ =~= old(self)@.subrange(1, old(self)@.len() as int));
            }
            Some(rec)
        }
    }
}

/// Every record of a written channel either survived from before the write
/// or is the newly written record.
pub proof fn lemma_write_elements(q: Seq<(u8, u8, u8)>, r: (u8, u8, u8))
    ensures
        forall|i: int|
            0 <= i < spec_channel_write(q, r).len() ==> q.contains(spec_channel_write(q, r)[i])
                || spec_channel_write(q, r)[i] == r,
{
    let w = spec_channel_write(q, r);
    assert forall|i: int| 0 <= i < w.len() implies q.contains(w[i]) || w[i] == r by {
        if i < w.len() - 1 {
            if q.len() < CHANNEL_CAPACITY {
                assert(w[i] == q[i]);
            } else {
                assert(w[i] == q[i + 1]);
            }
        }
    }
}

/// A write to a channel at capacity drops exactly the one oldest pending
/// record: every other pending record survives, the producer order of the
/// survivors is kept, and the new record comes out last.
pub proof fn lemma_full_write_drops_exactly_oldest(q: Seq<(u8, u8, u8)>, r: (u8, u8, u8))
    requires
        q.len() == CHANNEL_CAPACITY,
    ensures
        spec_channel_write(q, r).len() == CHANNEL_CAPACITY,
        forall|i: int| 1 <= i < q.len() ==> spec_channel_write(q, r)[i - 1] == q[i],
        spec_channel_write(q, r)[CHANNEL_CAPACITY - 1] == r,
{
}

/// A write to a channel below capacity drops nothing: every pending record
/// survives in producer order and the new record comes out last, so consumer
/// order always matches producer order for the retained records.
pub proof fn lemma_write_keeps_producer_order(q: Seq<(u8, u8, u8)>, r: (u8, u8, u8))
    requires
        q.len() < CHANNEL_CAPACITY,
    ensures
        spec_channel_write(q, r).len() == q.len() + 1,
        forall|i: int| 0 <= i < q.len() ==> spec_channel_write(q, r)[i] == q[i],
        spec_channel_write(q, r)[q.len() as int] == r,
{
}

} // verus!
