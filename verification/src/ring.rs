use vstd::prelude::*;

verus! {

/// The two ends of one bounded single-producer/single-consumer ring of
/// samples.  The ring itself comes from the `rtrb` crate and is opaque
/// here; `ring_contents` and `ring_capacity` name what it holds.
#[verifier::external_body]
pub struct RingChannel {
    producer: rtrb::Producer<i32>,
    consumer: rtrb::Consumer<i32>,
}

/// The samples currently written and not yet read, oldest first.
pub uninterp spec fn ring_contents(r: RingChannel) -> Seq<i32>;

/// The fixed number of slots the ring was created with.
pub uninterp spec fn ring_capacity(r: RingChannel) -> nat;

impl RingChannel {
    /// Relies on rtrb::RingBuffer::new: a fresh ring with the given
    /// capacity holds nothing.
    #[verifier::external_body]
    pub fn new(capacity: usize) -> (r: RingChannel)
        ensures
            ring_contents(r) == Seq::<i32>::empty(),
            ring_capacity(r) == capacity as nat,
    {
        let (producer, consumer) = rtrb::RingBuffer::new(capacity);
        RingChannel { producer, consumer }
    }

    /// Relies on rtrb::Producer::push: the value is appended when a slot
    /// is free, and rejected when the ring is full.
    #[verifier::external_body]
    pub fn push(&mut self, value: i32) -> (ok: bool)
        ensures
            ring_capacity(*final(self)) == ring_capacity(*old(self)),
            ring_contents(*old(self)).len() < ring_capacity(*old(self)) ==> ok && ring_contents(
                *final(self),
            ) == ring_contents(*old(self)).push(value),
            ring_contents(*old(self)).len() >= ring_capacity(*old(self)) ==> !ok && ring_contents(
                *final(self),
            ) == ring_contents(*old(self)),
    {
        self.producer.push(value).is_ok()
    }

    /// Relies on rtrb::Consumer::pop: the oldest sample is removed and
    /// returned, or nothing when the ring is empty.
    #[verifier::external_body]
    pub fn pop(&mut self) -> (r: Option<i32>)
        ensures
            ring_capacity(*final(self)) == ring_capacity(*old(self)),
            ring_contents(*old(self)).len() > 0 ==> r == Some(ring_contents(*old(self))[0])
                && ring_contents(*final(self)) == ring_contents(*old(self)).drop_first(),
            ring_contents(*old(self)).len() == 0 ==> r is None && ring_contents(*final(self))
                == ring_contents(*old(self)),
    {
        self.consumer.pop().ok()
    }

    /// Relies on rtrb::Consumer::slots: the number of slots available for
    /// reading is the number of unread samples.
    #[verifier::external_body]
    pub fn slots(&self) -> (r: usize)
        ensures
            r as int == ring_contents(*self).len(),
    {
        self.consumer.slots()
    }
}

/// Fixed-capacity, non-blocking sample transport between the hardware
/// callback and the engine, with an overrun flag that records dropped
/// samples.
pub struct LockFreeAudioBuffer {
    ring: RingChannel,
    capacity: usize,
    overrun: bool,
}

impl LockFreeAudioBuffer {
    /// The unread samples, oldest first.
    pub closed spec fn contents(&self) -> Seq<i32> {
        ring_contents(self.ring)
    }

    /// Whether samples were dropped since the flag was last cleared.
    pub closed spec fn overrun_flagged(&self) -> bool {
        self.overrun
    }

    pub closed spec fn wf(&self) -> bool {
        &&& ring_capacity(self.ring) == self.capacity as nat
        &&& self.contents().len() <= self.capacity as nat
    }

    pub fn new(capacity: usize) -> (b: LockFreeAudioBuffer)
        ensures
            b.wf(),
            b.contents() == Seq::<i32>::empty(),
            !b.overrun_flagged(),
            b.capacity_spec() == capacity,
    {
        LockFreeAudioBuffer { ring: RingChannel::new(capacity), capacity, overrun: false }
    }

    /// Append as many samples as fit; on overflow, set the overrun flag
    /// and drop the overflowing tail.  Returns whether everything fit.
    pub fn write(&mut self, samples: &Vec<i32>) -> (ok: bool)
        requires
            old(self).wf(),
        ensures
            final(self).wf(),
            ({
                let free = old(self).capacity_spec() as int - old(self).contents().len() as int;
                if samples@.len() <= free {
                    &&& ok
                    &&& final(self).contents() == old(self).contents() + samples@
                    &&& final(self).overrun_flagged() == old(self).overrun_flagged()
                } else {
                    &&& !ok
                    &&& final(self).contents() == old(self).contents() + samples@.take(free)
                    &&& final(self).overrun_flagged()
                }
            }),
            final(self).capacity_spec() == old(self).capacity_spec(),
    {
        let mut i: usize = 0;
        let mut all_written: bool = true;
        while i < samples.len() && all_written
            invariant
                old(self).wf(),
                self.wf(),
                i <= samples.len(),
                self.capacity == old(self).capacity,
                all_written ==> {
                    &&& self.contents() == old(self).contents() + samples@.take(i as int)
                    &&& self.overrun == old(self).overrun
                },
                !all_written ==> {
                    &&& samples@.len() > old(self).capacity as int - old(self).contents().len()
                    &&& self.contents() == old(self).contents() + samples@.take(
                        old(self).capacity as int - old(self).contents().len() as int,
                    )
                    &&& self.overrun
                },
            decreases samples.len() - i, (if all_written { 1int } else { 0int }),
        {
            let ok = self.ring.push(samples[i]);
            if ok {
                proof {
                    assert(old(self).contents() + samples@.take(i as int + 1) =~= (old(
                        self,
                    ).contents() + samples@.take(i as int)).push(samples@[i as int]));
                }
                i = i + 1;
            } else {
                self.overrun = true;
                all_written = false;
                proof {
                    assert(i as int == old(self).capacity as int - old(
                        self,
                    ).contents().len() as int);
                }
            }
        }
        proof {
            if all_written {
                assert(samples@.take(samples@.len() as int) =~= samples@);
            }
        }
        all_written
    }

    /// Move up to `output.len()` samples out of the ring into the front of
    /// `output`; the rest of `output` is untouched.  Returns the number of
    /// samples read.
    pub fn read(&mut self, output: &mut Vec<i32>) -> (count: usize)
        requires
            old(self).wf(),
        ensures
            final(self).wf(),
            final(self).capacity_spec() == old(self).capacity_spec(),
            final(self).overrun_flagged() == old(self).overrun_flagged(),
            final(output)@.len() == old(output)@.len(),
            count as int == (if old(output)@.len() <= old(self).contents().len() {
                old(output)@.len() as int
            } else {
                old(self).contents().len() as int
            }),
            final(self).contents() == old(self).contents().skip(count as int),
            forall|j: int|
                0 <= j < count ==> #[trigger] final(output)@[j] == old(self).contents()[j],
            forall|j: int|
                count <= j < old(output)@.len() ==> #[trigger] final(output)@[j] == old(output)@[j],
    {
        let mut i: usize = 0;
        let n: usize = output.len();
        while i < n
            invariant
                old(self).wf(),
                self.wf(),
                i <= n,
                n as int == output@.len(),
                n as int == old(output)@.len(),
                self.capacity == old(self).capacity,
                self.overrun == old(self).overrun,
                i <= old(self).contents().len(),
                self.contents() == old(self).contents().skip(i as int),
                forall|j: int| 0 <= j < i ==> #[trigger] output@[j] == old(self).contents()[j],
                forall|j: int| i <= j < n ==> #[trigger] output@[j] == old(output)@[j],
            decreases n - i,
        {
            let taken = self.ring.pop();
            match taken {
                Some(value) => {
                    output.set(i, value);
                    proof {
                        assert(old(self).contents().skip(i as int).drop_first() =~= old(
                            self,
                        ).contents().skip(i as int + 1));
                    }
                    i = i + 1;
                },
                None => {
                    proof {
                        assert(old(self).contents().skip(i as int).len() == 0);
                        assert(i as int == old(self).contents().len());
                    }
                    return i;
                },
            }
        }
        i
    }

    /// Report whether an overrun happened, and clear the flag.
    pub fn check_and_clear_overrun(&mut self) -> (r: bool)
        ensures
            r == old(self).overrun_flagged(),
            !final(self).overrun_flagged(),
            final(self).contents() == old(self).contents(),
            final(self).capacity_spec() == old(self).capacity_spec(),
            old(self).wf() ==> final(self).wf(),
    {
        let r = self.overrun;
        self.overrun = false;
        r
    }

    /// Number of samples available to read.
    pub fn available(&self) -> (r: usize)
        ensures
            r as int == self.contents().len(),
    {
        self.ring.slots()
    }

    /// The fixed capacity.
    pub fn capacity(&self) -> (r: usize)
        ensures
            r == self.capacity_spec(),
    {
        self.capacity
    }

    /// The capacity as a specification value.
    pub closed spec fn capacity_spec(&self) -> usize {
        self.capacity
    }
}

/// Writing at most `capacity` samples into an empty buffer succeeds, and
/// reading them back yields the identical sequence; writing more than the
/// capacity flags an overrun and retains only the first `capacity`
/// samples.
pub proof fn lemma_write_read_round_trip(
    b0: LockFreeAudioBuffer,
    b1: LockFreeAudioBuffer,
    b2: LockFreeAudioBuffer,
    written: Seq<i32>,
    wrote_all: bool,
    taken: Seq<i32>,
    count: int,
)
    requires
        b0.wf(),
        b0.contents().len() == 0,
        // outcome of `write`:
        written.len() <= b0.capacity_spec() ==> wrote_all && b1.contents() == b0.contents()
            + written && b1.overrun_flagged() == b0.overrun_flagged(),
        written.len() > b0.capacity_spec() ==> !wrote_all && b1.contents() == b0.contents()
            + written.take(b0.capacity_spec() as int) && b1.overrun_flagged(),
        // outcome of `read` into a buffer of the same length as `b1` holds:
        taken.len() == b1.contents().len(),
        count == b1.contents().len(),
        forall|j: int| 0 <= j < count ==> #[trigger] taken[j] == b1.contents()[j],
        b2.contents() == b1.contents().skip(count),
    ensures
        written.len() <= b0.capacity_spec() ==> wrote_all && taken == written,
        written.len() > b0.capacity_spec() ==> !wrote_all && b1.overrun_flagged() && taken
            == written.take(b0.capacity_spec() as int),
        b2.contents().len() == 0,
{
    if written.len() <= b0.capacity_spec() {
        assert(b1.contents() =~= written);
        assert(taken =~= written);
    } else {
        assert(b1.contents() =~= written.take(b0.capacity_spec() as int));
        assert(taken =~= written.take(b0.capacity_spec() as int));
    }
}

} // verus!
