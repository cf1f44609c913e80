//! The ring buffers through which the streams hand samples on.

use super::constants::{targets, CustomSample, TargetFormat, EQUILIBRIUM};
use ringbuf::traits::{Consumer, Observer, Producer};
use vstd::prelude::*;

verus! {

/// A heap-allocated ring buffer of `ringbuf` that holds samples.
#[verifier::external_body]
pub struct SampleRing {
    ring: ringbuf::HeapRb<TargetFormat>,
}

/// The samples that a ring buffer holds, the eldest first.
pub uninterp spec fn ring_contents(ring: SampleRing) -> Seq<u32>;

/// How many samples a ring buffer was made to hold.
pub uninterp spec fn ring_capacity(ring: SampleRing) -> nat;

/// The largest capacity whose storage can be addressed.
pub open spec fn max_ring_capacity() -> int {
    isize::MAX / 4
}

/// The lesser of two lengths.
pub open spec fn lesser(a: int, b: int) -> int {
    if a <= b {
        a
    } else {
        b
    }
}

/// `n` samples of silence.
pub open spec fn silence(n: nat) -> Seq<u32> {
    Seq::new(n, |i: int| EQUILIBRIUM)
}

/// The contents after as much of `data` has been appended as the capacity allows.
pub open spec fn fitted(contents: Seq<u32>, capacity: nat, data: Seq<u32>) -> Seq<u32> {
    contents + data.take(lesser(data.len() as int, capacity - contents.len()))
}

/// How many samples of `data` do not fit.
pub open spec fn overflow(contents: Seq<u32>, capacity: nat, data: Seq<u32>) -> int {
    data.len() - lesser(data.len() as int, capacity - contents.len())
}

/// The eldest `n` samples, silence standing for those that are missing.
pub open spec fn padded(contents: Seq<u32>, n: nat) -> Seq<u32> {
    Seq::new(
        n,
        |i: int|
            if i < contents.len() {
                contents[i]
            } else {
                EQUILIBRIUM
            },
    )
}

/// The contents after the eldest `n` samples, or all of them, have been taken.
pub open spec fn rest(contents: Seq<u32>, n: nat) -> Seq<u32> {
    contents.skip(lesser(n as int, contents.len() as int))
}

/// Two channels of one length in alternation, the first channel first.
pub open spec fn interleaved(first: Seq<u32>, second: Seq<u32>) -> Seq<u32> {
    Seq::new(
        2 * first.len(),
        |i: int|
            if i % 2 == 0 {
                first[i / 2]
            } else {
                second[i / 2]
            },
    )
}

impl SampleRing {
    /// What the ring buffer holds never exceeds its capacity.
    pub open spec fn wf(self) -> bool {
        &&& 0 < ring_capacity(self) <= max_ring_capacity()
        &&& ring_contents(self).len() <= ring_capacity(self)
    }

    /// `ringbuf::HeapRb::new`: an empty ring buffer of the capacity asked for.
    ///
    /// It panics on a capacity of zero and on one whose storage exceeds the address space. That
    /// the memory can be had is taken for granted.
    #[verifier::external_body]
    pub(crate) fn with_capacity(capacity: usize) -> (ring: SampleRing)
        requires
            0 < capacity <= max_ring_capacity(),
        ensures
            ring_contents(ring) == Seq::<u32>::empty(),
            ring_capacity(ring) == capacity,
    {
        SampleRing { ring: ringbuf::HeapRb::new(capacity) }
    }

    /// `ringbuf::traits::Observer::occupied_len`: the number of samples held.
    #[verifier::external_body]
    pub(crate) fn occupied_len(&self) -> (len: usize)
        ensures
            len == ring_contents(*self).len(),
    {
        self.ring.occupied_len()
    }

    /// `ringbuf::traits::Producer::try_push`: appends the sample, or hands it back if the ring
    /// buffer is full.
    #[verifier::external_body]
    pub(crate) fn try_push(&mut self, sample: TargetFormat) -> (pushed: Result<(), TargetFormat>)
        requires
            old(self).wf(),
        ensures
            ring_capacity(*final(self)) == ring_capacity(*old(self)),
            ring_contents(*old(self)).len() < ring_capacity(*old(self)) ==> {
                &&& pushed == Ok::<(), TargetFormat>(())
                &&& ring_contents(*final(self)) == ring_contents(*old(self)).push(sample)
            },
            ring_contents(*old(self)).len() == ring_capacity(*old(self)) ==> {
                &&& pushed == Err::<(), TargetFormat>(sample)
                &&& ring_contents(*final(self)) == ring_contents(*old(self))
            },
    {
        self.ring.try_push(sample)
    }

    /// `ringbuf::traits::Consumer::try_pop`: removes the eldest sample, if there is one.
    #[verifier::external_body]
    pub(crate) fn try_pop(&mut self) -> (popped: Option<TargetFormat>)
        requires
            old(self).wf(),
        ensures
            ring_capacity(*final(self)) == ring_capacity(*old(self)),
            ring_contents(*old(self)).len() > 0 ==> {
                &&& popped == Some(ring_contents(*old(self))[0])
                &&& ring_contents(*final(self)) == ring_contents(*old(self)).skip(1)
            },
            ring_contents(*old(self)).len() == 0 ==> {
                &&& popped == None::<TargetFormat>
                &&& ring_contents(*final(self)) == ring_contents(*old(self))
            },
    {
        self.ring.try_pop()
    }

    /// `ringbuf::traits::Producer::push_slice`: appends samples from the front of the slice until
    /// it ends or the ring buffer is full, and returns how many it appended.
    #[verifier::external_body]
    pub(crate) fn push_slice(&mut self, samples: &[TargetFormat]) -> (count: usize)
        requires
            old(self).wf(),
        ensures
            count == lesser(
                samples@.len() as int,
                ring_capacity(*old(self)) - ring_contents(*old(self)).len(),
            ),
            ring_capacity(*final(self)) == ring_capacity(*old(self)),
            ring_contents(*final(self)) == fitted(
                ring_contents(*old(self)),
                ring_capacity(*old(self)),
                samples@,
            ),
    {
        self.ring.push_slice(samples)
    }

    /// `ringbuf::traits::Consumer::pop_slice`: moves the eldest samples to the front of the
    /// buffer until it is full or the ring buffer is empty, leaves the rest of the buffer as it
    /// is, and returns how many it moved.
    #[verifier::external_body]
    pub(crate) fn pop_slice(&mut self, buffer: &mut Vec<TargetFormat>) -> (count: usize)
        requires
            old(self).wf(),
        ensures
            count == lesser(old(buffer)@.len() as int, ring_contents(*old(self)).len() as int),
            final(buffer)@ == ring_contents(*old(self)).take(count as int) + old(buffer)@.skip(
                count as int,
            ),
            ring_capacity(*final(self)) == ring_capacity(*old(self)),
            ring_contents(*final(self)) == rest(ring_contents(*old(self)), old(buffer)@.len()),
    {
        self.ring.pop_slice(buffer)
    }

    /// Converts samples and appends them one by one, dropping those that find the ring buffer
    /// full, and returns how many were dropped.
    pub fn push_samples<T: CustomSample>(&mut self, samples: &[T]) -> (dropped: usize)
        requires
            old(self).wf(),
        ensures
            final(self).wf(),
            ring_capacity(*final(self)) == ring_capacity(*old(self)),
            ring_contents(*final(self)) == fitted(
                ring_contents(*old(self)),
                ring_capacity(*old(self)),
                targets(samples@),
            ),
            dropped == overflow(
                ring_contents(*old(self)),
                ring_capacity(*old(self)),
                targets(samples@),
            ),
    {
        let ghost before = ring_contents(*self);
        let ghost capacity = ring_capacity(*self);
        let ghost data = targets(samples@);
        let mut dropped: usize = 0;
        let mut i: usize = 0;
        assert(before + data.take(0) =~= before);
        while i < samples.len()
            invariant
                i <= samples@.len(),
                dropped <= i,
                data == targets(samples@),
                self.wf(),
                ring_capacity(*self) == capacity,
                before.len() <= capacity,
                ring_contents(*self) == fitted(before, capacity, data.take(i as int)),
                dropped == overflow(before, capacity, data.take(i as int)),
            decreases samples@.len() - i,
        {
            let ghost kept = ring_contents(*self);
            let ghost head = data.take(i as int);
            let ghost longer = data.take(i + 1);
            let sample: TargetFormat = samples[i].to_target();
            let pushed: Result<(), TargetFormat> = self.try_push(sample);
            if pushed.is_err() {
                dropped = dropped + 1;
            }
            i = i + 1;
            proof {
                let room = capacity - before.len();
                if head.len() < room {
                    assert(head.take(head.len() as int) =~= head);
                    assert(longer.take(longer.len() as int) =~= longer);
                    assert(kept.push(sample) =~= before + longer);
                } else {
                    assert(head.take(room) =~= longer.take(room));
                }
            }
        }
        assert(data.take(data.len() as int) =~= data);
        dropped
    }

    /// Takes the eldest `n` samples, with silence for those that are missing.
    pub fn pop_padded(&mut self, n: usize) -> (samples: Vec<TargetFormat>)
        requires
            old(self).wf(),
        ensures
            final(self).wf(),
            ring_capacity(*final(self)) == ring_capacity(*old(self)),
            samples@ == padded(ring_contents(*old(self)), n as nat),
            ring_contents(*final(self)) == rest(ring_contents(*old(self)), n as nat),
    {
        let mut samples: Vec<TargetFormat> = vec![EQUILIBRIUM; n];
        let _count: usize = self.pop_slice(&mut samples);
        assert(samples@ =~= padded(ring_contents(*old(self)), n as nat));
        samples
    }
}

/// Two channels of one length in alternation.
pub fn interleave(first: &Vec<TargetFormat>, second: &Vec<TargetFormat>) -> (data: Vec<
    TargetFormat,
>)
    requires
        first@.len() == second@.len(),
    ensures
        data@ == interleaved(first@, second@),
{
    let mut data: Vec<TargetFormat> = Vec::new();
    let mut i: usize = 0;
    while i < first.len()
        invariant
            i <= first@.len(),
            first@.len() == second@.len(),
            data@.len() == 2 * i,
            forall|j: int|
                0 <= j < 2 * i ==> data@[j] == #[trigger] interleaved(first@, second@)[j],
        decreases first@.len() - i,
    {
        data.push(first[i]);
        data.push(second[i]);
        i = i + 1;
    }
    assert(data@ =~= interleaved(first@, second@));
    data
}

} // verus!
