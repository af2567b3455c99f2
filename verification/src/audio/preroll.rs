//! The pre-roll buffer: a rolling window of the most recent audio.
//!
//! This is what makes a recording able to start *before* the keypress. The cost is a fixed
//! allocation held for as long as the device is open; the benefit is that the first syllable
//! of "open my calendar" survives, which every push-to-talk tool without one loses.
//!
//! Nothing here is ever written to disk unless a recording is actually triggered.

use vstd::prelude::*;

verus! {

/// A fixed-capacity ring holding the most recently captured samples.
///
/// Writes never allocate after construction, which matters because this is fed continuously
/// for as long as the microphone is open.
#[derive(Debug)]
pub struct PreRollBuffer {
    ring: Vec<u32>,
    /// Where the next sample goes.
    head: usize,
    /// How many slots hold real audio; stops growing once the ring has wrapped.
    filled: usize,
    sample_rate: u32,
}

/// How many samples `ms` milliseconds last at `sample_rate`.
pub open spec fn samples_for(sample_rate: u32, ms: u32) -> int {
    let exact = (sample_rate * ms) / 1000;
    if exact <= usize::MAX {
        exact
    } else {
        usize::MAX as int
    }
}

/// The last `count` samples of a stream, or all of it when it is shorter.
pub open spec fn newest(stream: Seq<u32>, count: int) -> Seq<u32> {
    if stream.len() <= count {
        stream
    } else {
        stream.skip(stream.len() - count)
    }
}

/// What a ring of `ring.len()` slots holds, oldest first, when the next sample goes to `head`
/// and `filled` slots hold audio.
pub open spec fn unrolled(ring: Seq<u32>, head: int, filled: int) -> Seq<u32> {
    Seq::new(filled as nat, |i: int| ring[slot(ring.len() as int, head, filled, i)])
}

/// The slot of the `i`th oldest sample.
pub open spec fn slot(capacity: int, head: int, filled: int, i: int) -> int {
    let at = head - filled + i;
    if at < 0 {
        at + capacity
    } else {
        at
    }
}

/// What a pre-roll buffer is: the samples in it, oldest first, how many it can hold, and the
/// rate they were captured at.
pub struct PreRollView {
    pub contents: Seq<u32>,
    pub capacity: int,
    pub sample_rate: u32,
}

impl PreRollView {
    /// The buffer after `samples` have been captured.
    pub open spec fn after(self, samples: Seq<u32>) -> PreRollView {
        PreRollView { contents: newest(self.contents + samples, self.capacity), ..self }
    }

    /// The most recent `want_ms` of audio, or all there is.
    pub open spec fn last_ms(self, want_ms: u32) -> Seq<u32> {
        newest(self.contents, samples_for(self.sample_rate, want_ms))
    }

    /// How much audio there is, in milliseconds.
    pub open spec fn available_ms_spec(self) -> u32 {
        if self.sample_rate == 0 {
            0
        } else {
            let ms = (self.contents.len() as int * 1000) / self.sample_rate as int;
            if ms <= u32::MAX {
                ms as u32
            } else {
                u32::MAX
            }
        }
    }
}

impl View for PreRollBuffer {
    type V = PreRollView;

    closed spec fn view(&self) -> PreRollView {
        PreRollView {
            contents: unrolled(self.ring@, self.head as int, self.filled as int),
            capacity: self.ring@.len() as int,
            sample_rate: self.sample_rate,
        }
    }
}

impl PreRollBuffer {
    #[verifier::type_invariant]
    spec fn consistent(self) -> bool {
        &&& self.filled <= self.ring@.len()
        &&& self.ring@.len() == 0 ==> self.head == 0
        &&& self.ring@.len() > 0 ==> self.head < self.ring@.len()
        &&& self.ring@.len() * 1000 <= u64::MAX
    }

    /// A buffer holding at most `window_ms` of mono audio at `sample_rate`.
    ///
    /// A zero-length window is legal and yields a buffer that accepts writes and returns
    /// nothing, which is precisely `CaptureMode::Warm`, so that mode needs no special case
    /// anywhere else.
    pub fn new(sample_rate: u32, window_ms: u32) -> (result: Self)
        ensures
            result@.contents == Seq::<u32>::empty(),
            result@.capacity == samples_for(sample_rate, window_ms),
            result@.sample_rate == sample_rate,
    {
        let capacity: usize = samples_for_ms(sample_rate, window_ms);
        proof {
            lemma_window_fits(sample_rate, window_ms);
        }
        let result = PreRollBuffer { ring: vec![0u32; capacity], head: 0, filled: 0, sample_rate };
        assert(result@.contents =~= Seq::<u32>::empty());
        result
    }

    pub fn capacity(&self) -> (result: usize)
        ensures
            result == self@.capacity,
    {
        self.ring.len()
    }

    /// The rate of the audio in it.
    pub fn sample_rate(&self) -> (result: u32)
        ensures
            result == self@.sample_rate,
    {
        self.sample_rate
    }

    /// How much audio is currently available, in milliseconds.
    ///
    /// Less than the configured window until the ring has filled, which is why a recording
    /// started moments after the device opened reports a smaller pre-roll than configured.
    pub fn available_ms(&self) -> (result: u32)
        ensures
            result == self@.available_ms_spec(),
    {
        proof {
            use_type_invariant(self);
        }
        if self.sample_rate == 0 {
            return 0;
        }
        let ms: u64 = self.filled as u64 * 1000 / self.sample_rate as u64;
        if ms <= u32::MAX as u64 {
            ms as u32
        } else {
            u32::MAX
        }
    }

    pub fn available_samples(&self) -> (result: usize)
        ensures
            result == self@.contents.len(),
    {
        self.filled
    }

    /// Append samples, discarding whatever falls out of the window.
    pub fn push(&mut self, samples: &[u32])
        ensures
            final(self)@ == old(self)@.after(samples@),
    {
        proof {
            use_type_invariant(&*self);
        }
        let capacity: usize = self.ring.len();
        if capacity == 0 {
            assert(newest(self@.contents + samples@, 0) =~= Seq::<u32>::empty());
            assert(self@.contents =~= Seq::<u32>::empty());
            return;
        }
        let ghost start = self@;
        let mut ring: Vec<u32> = Vec::new();
        let mut head: usize = self.head;
        let mut filled: usize = self.filled;
        self.head = 0;
        self.filled = 0;
        std::mem::swap(&mut ring, &mut self.ring);

        // Only the tail of a write longer than the whole window can survive.
        let first: usize = if samples.len() > capacity {
            samples.len() - capacity
        } else {
            0
        };
        let mut i: usize = first;
        proof {
            assert(unrolled(ring@, head as int, filled as int) =~= start.contents);
            assert(start.contents + samples@.subrange(first as int, first as int)
                =~= start.contents);
        }
        while i < samples.len()
            invariant
                first <= i <= samples.len(),
                ring@.len() == capacity,
                capacity > 0,
                head < capacity,
                filled <= capacity,
                unrolled(ring@, head as int, filled as int) == newest(
                    start.contents + samples@.subrange(first as int, i as int),
                    capacity as int,
                ),
            decreases samples.len() - i,
        {
            let ghost held = unrolled(ring@, head as int, filled as int);
            let ghost seen = start.contents + samples@.subrange(first as int, i as int);
            let ghost (ring0, head0, filled0) = (ring@, head as int, filled as int);
            ring.set(head, samples[i]);
            head = if head + 1 == capacity {
                0
            } else {
                head + 1
            };
            filled = if filled < capacity {
                filled + 1
            } else {
                capacity
            };
            proof {
                lemma_one_more(ring0, head0, filled0, samples@[i as int]);
                let grown = start.contents + samples@.subrange(first as int, i + 1);
                assert(grown =~= seen.push(samples@[i as int]));
                assert(newest(grown, capacity as int) =~= newest(
                    held.push(samples@[i as int]),
                    capacity as int,
                ));
            }
            i += 1;
        }
        proof {
            let tail = samples@.subrange(first as int, samples@.len() as int);
            assert(newest(start.contents + tail, capacity as int) =~= newest(
                start.contents + samples@,
                capacity as int,
            ));
        }
        self.ring = ring;
        self.head = head;
        self.filled = filled;
    }

    /// The most recent `want_ms` of audio, oldest sample first.
    ///
    /// Returns everything available when less than that has been captured.
    pub fn take_last_ms(&self, want_ms: u32) -> (result: Vec<u32>)
        ensures
            result@ == self@.last_ms(want_ms),
            result@.len() * 1000 <= u64::MAX,
    {
        proof {
            use_type_invariant(self);
        }
        let asked: usize = samples_for_ms(self.sample_rate, want_ms);
        let wanted: usize = if asked < self.filled {
            asked
        } else {
            self.filled
        };
        let capacity: usize = self.ring.len();
        let mut out: Vec<u32> = Vec::with_capacity(wanted);
        let mut i: usize = 0;
        while i < wanted
            invariant
                i <= wanted,
                wanted <= self.filled,
                capacity == self.ring@.len(),
                self.filled <= capacity,
                capacity > 0 ==> self.head < capacity,
                wanted > 0 ==> capacity > 0,
                out@.len() == i,
                forall|j: int| 0 <= j < i ==> #[trigger] out@[j] == self@.contents[self.filled
                    - wanted + j],
            decreases wanted - i,
        {
            // `head` is one past the newest sample, so the oldest wanted sample sits `wanted`
            // slots behind it, and may be on the other side of the wrap.
            let behind: usize = wanted - i;
            let at: usize = if self.head >= behind {
                self.head - behind
            } else {
                self.head + (capacity - behind)
            };
            out.push(self.ring[at]);
            i += 1;
        }
        assert(out@ =~= self@.last_ms(want_ms));
        out
    }

    /// Forget everything captured so far, keeping the allocation.
    ///
    /// Used when the device is reopened: audio from before a device change is not lookback,
    /// it is a splice of two different microphones.
    pub fn clear(&mut self)
        ensures
            final(self)@ == (PreRollView { contents: Seq::empty(), ..old(self)@ }),
    {
        proof {
            use_type_invariant(&*self);
        }
        self.head = 0;
        self.filled = 0;
        assert(self@.contents =~= Seq::<u32>::empty());
    }
}

proof fn lemma_window_fits(sample_rate: u32, ms: u32)
    ensures
        samples_for(sample_rate, ms) * 1000 <= u64::MAX,
        0 <= samples_for(sample_rate, ms) <= usize::MAX,
        0 <= sample_rate * ms <= u64::MAX,
{
    assert(0 <= sample_rate * ms <= u64::MAX) by (nonlinear_arith)
        requires
            0 <= sample_rate <= u32::MAX,
            0 <= ms <= u32::MAX,
    ;
}

fn samples_for_ms(sample_rate: u32, ms: u32) -> (result: usize)
    ensures
        result == samples_for(sample_rate, ms),
{
    proof {
        lemma_window_fits(sample_rate, ms);
    }
    let exact: u64 = sample_rate as u64 * ms as u64 / 1000;
    if exact <= usize::MAX as u64 {
        exact as usize
    } else {
        usize::MAX
    }
}

/// Writing one sample at the head keeps the newest samples of the old contents and the new one.
proof fn lemma_one_more(ring: Seq<u32>, head: int, filled: int, sample: u32)
    requires
        0 < ring.len(),
        0 <= head < ring.len(),
        0 <= filled <= ring.len(),
    ensures
        ({
            let capacity = ring.len() as int;
            let next = if head + 1 == capacity { 0 } else { head + 1 };
            let count = if filled < capacity { filled + 1 } else { capacity };
            unrolled(ring.update(head, sample), next, count) == newest(
                unrolled(ring, head, filled).push(sample),
                capacity,
            )
        }),
{
    let capacity = ring.len() as int;
    let next = if head + 1 == capacity { 0 } else { head + 1 };
    let count = if filled < capacity { filled + 1 } else { capacity };
    let left = unrolled(ring.update(head, sample), next, count);
    let right = newest(unrolled(ring, head, filled).push(sample), capacity);
    assert(left.len() == right.len());
    assert forall|i: int| 0 <= i < left.len() implies left[i] == right[i] by {
        let at = slot(capacity, next, count, i);
        if i == count - 1 {
            assert(at == head);
        } else {
            assert(at != head);
            let before = if filled < capacity { i } else { i + 1 };
            assert(at == slot(capacity, head, filled, before));
        }
    }
    assert(left =~= right);
}

/// Capturing in many small blocks leaves the buffer as one large block does: a backend
/// delivers arbitrary buffer sizes, and these must be indistinguishable.
pub proof fn law_block_size_does_not_matter(buffer: PreRollView, first: Seq<u32>, second: Seq<u32>)
    requires
        0 <= buffer.capacity,
    ensures
        buffer.after(first).after(second) == buffer.after(first + second),
{
    let whole = buffer.contents + (first + second);
    let once = newest(newest(buffer.contents + first, buffer.capacity) + second, buffer.capacity);
    assert(once =~= newest(whole, buffer.capacity));
}

/// The window never holds more than its capacity, and what it holds is the end of everything
/// captured since it was empty.
pub proof fn law_window_is_the_newest_audio(buffer: PreRollView, captured: Seq<u32>)
    requires
        0 <= buffer.capacity,
        buffer.contents == Seq::<u32>::empty(),
    ensures
        buffer.after(captured).contents.len() <= buffer.capacity,
        buffer.after(captured).contents.is_suffix_of(captured),
        captured.len() >= buffer.capacity ==> buffer.after(captured).contents.len()
            == buffer.capacity,
{
    assert(buffer.contents + captured =~= captured);
    assert(newest(captured, buffer.capacity).is_suffix_of(captured));
}

/// A partial request takes from the newest end: pre-roll means the audio just before the
/// keypress, not the start of the buffer.
pub proof fn law_lookback_is_a_suffix(buffer: PreRollView, want_ms: u32)
    ensures
        buffer.last_ms(want_ms).is_suffix_of(buffer.contents),
        buffer.last_ms(want_ms).len() <= samples_for(buffer.sample_rate, want_ms),
{
    lemma_window_fits(buffer.sample_rate, want_ms);
    assert(buffer.last_ms(want_ms).is_suffix_of(buffer.contents));
}

/// A look-back of some milliseconds is the newest samples of that length, or all there are,
/// for every rate; asking for none gives none.
pub proof fn law_a_lookback_has_the_length_asked_for(buffer: PreRollView, want_ms: u32)
    requires
        buffer.sample_rate * want_ms / 1000 <= usize::MAX,
    ensures
        ({
            let wanted = buffer.sample_rate * want_ms / 1000;
            let held = buffer.contents.len() as int;
            let found = buffer.last_ms(want_ms);
            &&& wanted <= held ==> found == buffer.contents.subrange(held - wanted, held)
            &&& wanted > held ==> found == buffer.contents
            &&& buffer.last_ms(0).len() == 0
        }),
{
    let wanted = buffer.sample_rate * want_ms / 1000;
    let held = buffer.contents.len() as int;
    assert(0 <= buffer.sample_rate * want_ms) by (nonlinear_arith)
        requires
            0 <= buffer.sample_rate,
            0 <= want_ms,
    ;
    assert(buffer.sample_rate * 0 == 0) by (nonlinear_arith);
    if wanted <= held {
        assert(buffer.last_ms(want_ms) =~= buffer.contents.subrange(held - wanted, held));
    }
}

/// Capturing keeps the newest samples, up to what the window holds and no fewer, and changes
/// neither its size nor its rate.
pub proof fn law_capturing_keeps_the_newest(buffer: PreRollView, samples: Seq<u32>)
    requires
        0 <= buffer.capacity,
    ensures
        ({
            let all = buffer.contents + samples;
            let after = buffer.after(samples);
            &&& all.len() <= buffer.capacity ==> after.contents == all
            &&& all.len() > buffer.capacity ==> after.contents == all.subrange(
                all.len() - buffer.capacity,
                all.len() as int,
            )
            &&& after.capacity == buffer.capacity
            &&& after.sample_rate == buffer.sample_rate
        }),
{
    let all = buffer.contents + samples;
    if all.len() > buffer.capacity {
        assert(buffer.after(samples).contents =~= all.subrange(
            all.len() - buffer.capacity,
            all.len() as int,
        ));
    }
}

/// What is available is told in milliseconds of what is held.
pub proof fn law_what_is_available_is_what_is_held(buffer: PreRollView)
    requires
        buffer.sample_rate > 0,
    ensures
        ({
            let ms = buffer.contents.len() as int * 1000 / buffer.sample_rate as int;
            ms <= u32::MAX ==> buffer.available_ms_spec() == ms
        }),
{
    vstd::arithmetic::div_mod::lemma_div_pos_is_pos(
        buffer.contents.len() as int * 1000,
        buffer.sample_rate as int,
    );
}

} // verus!
