//! The boundary between "some backend produces samples" and everything else.
//!
//! Capture backends differ wildly, but they all do one thing: hand blocks of samples to
//! something else, from a thread whose deadlines must not be missed. That is the whole of
//! this interface.

use std::sync::atomic::AtomicU64;
use std::sync::Arc;

use vstd::prelude::*;

use crate::config::DeviceSelector;
use crate::text::{concat, concat3, decimal_text, quote};

verus! {

/// Why capture failed.
#[derive(Debug, Clone, PartialEq, Eq)]
pub enum AudioError {
    /// No input device matched, or there are none at all.
    NoDevice { requested: Option<String> },
    /// A device exists but will not produce the format asked for.
    UnsupportedFormat { device: String, sample_rate: u32, channels: u16 },
    /// The backend failed after the stream was running.
    Stream(String),
    Backend(String),
}

/// What a capture failure is called.
pub open spec fn audio_error_text(error: AudioError) -> Seq<char> {
    match error {
        AudioError::NoDevice { requested } => "no capture device available"@ + (match requested {
            Some(name) => " matching "@ + crate::text::quoted(name@),
            None => ""@,
        }),
        AudioError::UnsupportedFormat { device, sample_rate, channels } => device@
            + " does not support "@ + crate::text::decimal(sample_rate as nat) + " Hz with "@
            + crate::text::decimal(channels as nat) + " channel(s)"@,
        AudioError::Stream(reason) => "capture stream failed: "@ + reason@,
        AudioError::Backend(reason) => "audio backend: "@ + reason@,
    }
}

impl AudioError {
    /// The failure in words.
    pub fn to_text(&self) -> (result: String)
        ensures
            result@ == audio_error_text(*self),
    {
        match self {
            AudioError::NoDevice { requested } => {
                let matching = match requested {
                    Some(name) => concat(" matching ", quote(name.as_str()).as_str()),
                    None => "".to_owned(),
                };
                concat("no capture device available", matching.as_str())
            },
            AudioError::UnsupportedFormat { device, sample_rate, channels } => {
                let mut out = concat3(
                    device.as_str(),
                    " does not support ",
                    decimal_text(*sample_rate as u64).as_str(),
                );
                out.append(" Hz with ");
                out.append(decimal_text(*channels as u64).as_str());
                out.append(" channel(s)");
                out
            },
            AudioError::Stream(reason) => concat("capture stream failed: ", reason.as_str()),
            AudioError::Backend(reason) => concat("audio backend: ", reason.as_str()),
        }
    }
}

/// What a backend is about to produce.
#[derive(Debug, PartialEq, Eq)]
pub struct DeviceInfo {
    pub name: String,
    pub sample_rate: u32,
    pub channels: u16,
}

impl Clone for DeviceInfo {
    fn clone(&self) -> (result: Self)
        ensures
            result == *self,
    {
        DeviceInfo {
            name: self.name.clone(),
            sample_rate: self.sample_rate,
            channels: self.channels,
        }
    }
}

/// The writing end of a ring buffer.
#[verifier::external_type_specification]
#[verifier::external_body]
#[verifier::reject_recursive_types(T)]
pub struct ExProducer<T>(rtrb::Producer<T>);

/// The reading end of a ring buffer.
#[verifier::external_type_specification]
#[verifier::external_body]
#[verifier::reject_recursive_types(T)]
pub struct ExConsumer<T>(rtrb::Consumer<T>);

/// The name of the samples that were offered to the buffer through its writing end, in order,
/// each with whether it went in.
pub uninterp spec fn offers(producer: rtrb::Producer<u32>) -> Seq<(u32, bool)>;

/// The name of everything that goes into the buffer through its writing end in its life.
pub uninterp spec fn carried(producer: rtrb::Producer<u32>) -> Seq<u32>;

/// The name of how many samples a buffer was made to hold.
pub uninterp spec fn room(producer: rtrb::Producer<u32>) -> nat;

/// The name of what each attempt to take a sample at the reading end has found, in order:
/// the sample, or nothing.
pub uninterp spec fn attempts(consumer: rtrb::Consumer<u32>) -> Seq<Option<u32>>;

/// The name of whether a sample waits at the reading end until it is next asked for one.
pub uninterp spec fn waiting(consumer: rtrb::Consumer<u32>) -> bool;

/// The name of whether the reading end finds nothing queued at some time before it next takes
/// a sample.
pub uninterp spec fn vacant(consumer: rtrb::Consumer<u32>) -> bool;

/// The name of everything that comes due at the reading end in the buffer's life.
pub uninterp spec fn due(consumer: rtrb::Consumer<u32>) -> Seq<u32>;

/// The samples that went in, among those that were offered.
pub open spec fn went_in(offers: Seq<(u32, bool)>) -> Seq<u32>
    decreases offers.len(),
{
    if offers.len() == 0 {
        Seq::empty()
    } else if offers.last().1 {
        went_in(offers.drop_last()).push(offers.last().0)
    } else {
        went_in(offers.drop_last())
    }
}

/// The samples among what the attempts to take one have found.
pub open spec fn found(attempts: Seq<Option<u32>>) -> Seq<u32>
    decreases attempts.len(),
{
    if attempts.len() == 0 {
        Seq::empty()
    } else {
        match attempts.last() {
            Some(sample) => found(attempts.drop_last()).push(sample),
            None => found(attempts.drop_last()),
        }
    }
}

/// What attempts find that take these samples one by one.
pub open spec fn each_of(samples: Seq<u32>) -> Seq<Option<u32>> {
    samples.map_values(|sample: u32| Some(sample))
}

/// What the attempts found that take these samples and leave nothing behind: each sample, and
/// then nothing. The count of them has its limit, at which there is no further attempt.
pub open spec fn until_nothing(samples: Seq<u32>) -> Seq<Option<u32>> {
    if samples.len() < usize::MAX {
        each_of(samples).push(None)
    } else {
        each_of(samples)
    }
}

/// The two ends of a new ring buffer.
///
/// Trusted: `rtrb::RingBuffer::new` makes an empty buffer with room for exactly `capacity`
/// elements. Both ends are of that one buffer, so what goes in is what comes due. It reserves the memory at once, which fails beyond `isize::MAX` bytes.
#[verifier::external_body]
fn new_ring(capacity: usize) -> (result: (rtrb::Producer<u32>, rtrb::Consumer<u32>))
    requires
        capacity * 4 <= isize::MAX,
    ensures
        offers(result.0) == Seq::<(u32, bool)>::empty(),
        room(result.0) == capacity,
        attempts(result.1) == Seq::<Option<u32>>::empty(),
        carried(result.0) == due(result.1),
{
    rtrb::RingBuffer::new(capacity)
}

/// Puts one sample into the buffer, or says that it is full.
///
/// Trusted: `rtrb::Producer::push` appends the element, or refuses it and changes nothing.
/// It refuses only when the buffer is full, which takes as many elements as there is room
/// for. Whether it is full beyond that depends on how far the reading end has come, which is
/// left unsaid.
#[verifier::external_body]
fn push_sample(producer: &mut rtrb::Producer<u32>, sample: u32) -> (result: bool)
    ensures
        room(*final(producer)) == room(*old(producer)),
        offers(*final(producer)) == offers(*old(producer)).push((sample, result)),
        went_in(offers(*old(producer))).len() < room(*old(producer)) ==> result,
        carried(*final(producer)) == carried(*old(producer)),
        went_in(offers(*final(producer))).is_prefix_of(carried(*final(producer))),
{
    producer.push(sample).is_ok()
}

/// Takes the oldest sample out of the buffer, if there is one.
///
/// Trusted: `rtrb::Consumer::pop` removes the oldest element, or finds none. Which it is
/// depends on what the writing end has done so far, and is left unsaid but for one thing: an
/// element that waits is found. What is found is, from the first on, what went in.
#[verifier::external_body]
fn pop_sample(consumer: &mut rtrb::Consumer<u32>) -> (result: Option<u32>)
    ensures
        attempts(*final(consumer)) == attempts(*old(consumer)).push(result),
        waiting(*old(consumer)) ==> result is Some,
        result is None ==> vacant(*old(consumer)),
        due(*final(consumer)) == due(*old(consumer)),
        found(attempts(*final(consumer))).is_prefix_of(due(*final(consumer))),
{
    consumer.pop().ok()
}

/// Whether the buffer holds nothing right now.
///
/// Trusted: `rtrb::Consumer::is_empty`. Once it says that the buffer is not empty, an element
/// waits until the reading end takes it, whatever the writing end does. When it says that the
/// buffer is empty, nothing was queued at that time; the buffer may cease to be empty at any
/// moment, so how long that lasts is left unsaid.
#[verifier::external_body]
fn ring_is_empty(consumer: &rtrb::Consumer<u32>) -> (result: bool)
    ensures
        !result ==> waiting(*consumer),
        result ==> vacant(*consumer),
{
    consumer.is_empty()
}

/// Whether `kept` is `offered` with some samples left out, in the same order: `lost` of them.
pub open spec fn thinned(offered: Seq<u32>, kept: Seq<u32>, lost: int) -> bool
    decreases offered.len(),
{
    if offered.len() == 0 {
        kept.len() == 0 && lost == 0
    } else {
        ||| thinned(offered.drop_last(), kept, lost - 1)
        ||| kept.len() > 0 && kept.last() == offered.last() && thinned(
            offered.drop_last(),
            kept.drop_last(),
            lost,
        )
    }
}

/// Nothing is lost unless it is counted: what was kept and what was lost is what was offered.
pub proof fn law_every_sample_is_kept_or_counted(offered: Seq<u32>, kept: Seq<u32>, lost: int)
    requires
        thinned(offered, kept, lost),
    ensures
        kept.len() + lost == offered.len(),
        0 <= lost,
        lost == 0 ==> kept == offered,
    decreases offered.len(),
{
    if offered.len() > 0 {
        let shorter = offered.drop_last();
        if thinned(shorter, kept, lost - 1) {
            law_every_sample_is_kept_or_counted(shorter, kept, lost - 1);
        } else {
            law_every_sample_is_kept_or_counted(shorter, kept.drop_last(), lost);
            assert(kept =~= kept.drop_last().push(kept.last()));
            assert(offered =~= shorter.push(offered.last()));
        }
    } else {
        assert(kept =~= offered);
    }
}

/// The name of how much was added to a counter through this handle of it.
pub uninterp spec fn added(counter: AtomicU64) -> nat;

/// The name of how much is added to a counter in its life.
pub uninterp spec fn added_in_all(counter: AtomicU64) -> nat;

/// The name of whether a load of a counter gives this value at some time in its life.
pub uninterp spec fn shows(counter: AtomicU64, value: u64) -> bool;

/// A counter at nought.
///
/// Trusted: `AtomicU64::new` makes a counter that nothing was added to.
#[verifier::external_body]
fn new_counter() -> (result: AtomicU64)
    ensures
        added(result) == 0,
{
    AtomicU64::new(0)
}

/// Adds to the count that the other side reads. The exact interleaving does not matter, only
/// that the total is eventually visible to the thread that reports gaps.
///
/// Trusted: `AtomicU64::fetch_add` adds exactly `count`.
#[verifier::external_body]
fn report_lost(counter: &mut Arc<AtomicU64>, count: u64)
    ensures
        added(**final(counter)) == added(**old(counter)) + count,
        added_in_all(**final(counter)) == added_in_all(**old(counter)),
        added(**final(counter)) <= added_in_all(**final(counter)),
{
    counter.fetch_add(count, std::sync::atomic::Ordering::Relaxed);
}

/// Reads the count that the other side adds to.
///
/// Trusted: `AtomicU64::load` gives a value that the counter has, which is a sum of some of
/// what is added to it in its life, wrapped around at the limit of the type. How much of it
/// was added by then depends on the other side, and is left unsaid.
#[verifier::external_body]
fn read_lost(counter: &Arc<AtomicU64>) -> (result: u64)
    ensures
        shows(**counter, result),
        result <= added_in_all(**counter),
{
    counter.load(std::sync::atomic::Ordering::Relaxed)
}

/// The realtime-safe end of the pipeline, handed to a backend.
///
/// [`SampleSink::write`] never allocates, never locks and never blocks: it is called from a
/// thread with a hard deadline, and anything that stalls it produces a gap in the user's
/// recording. When the consumer cannot keep up, samples are dropped and counted.
pub struct SampleSink {
    producer: rtrb::Producer<u32>,
    dropped: Arc<AtomicU64>,
}

/// The samples of some offers, in order.
pub open spec fn offered(offers: Seq<(u32, bool)>) -> Seq<u32> {
    offers.map_values(|offer: (u32, bool)| offer.0)
}

impl SampleSink {
    /// The samples that were offered to the channel, in order, each with whether it fitted.
    pub closed spec fn offers_spec(&self) -> Seq<(u32, bool)> {
        offers(self.producer)
    }

    /// Everything that goes into the channel in its life.
    pub closed spec fn carried_spec(&self) -> Seq<u32> {
        carried(self.producer)
    }

    /// The samples that went through, in order.
    pub open spec fn accepted_spec(&self) -> Seq<u32> {
        went_in(self.offers_spec())
    }

    /// How many samples the channel was made to hold.
    pub closed spec fn room_spec(&self) -> nat {
        room(self.producer)
    }

    /// How many samples this side has reported as lost.
    pub closed spec fn lost_spec(&self) -> nat {
        added(*self.dropped)
    }

    /// How many samples are reported as lost in the channel's life.
    pub closed spec fn lost_in_all_spec(&self) -> nat {
        added_in_all(*self.dropped)
    }

    /// What went through so far is where everything that does begins, and what was reported
    /// as lost is part of all that is.
    pub open spec fn well_formed(&self) -> bool {
        &&& self.accepted_spec().is_prefix_of(self.carried_spec())
        &&& self.lost_spec() <= self.lost_in_all_spec()
    }

    /// Write a block, dropping whatever does not fit.
    pub fn write(&mut self, samples: &[u32])
        ensures
            final(self).room_spec() == old(self).room_spec(),
            final(self).carried_spec() == old(self).carried_spec(),
            final(self).lost_in_all_spec() == old(self).lost_in_all_spec(),
            old(self).well_formed() ==> final(self).well_formed(),
            ({
                let made = final(self).offers_spec().skip(old(self).offers_spec().len() as int);
                let kept = went_in(made);
                &&& final(self).offers_spec() == old(self).offers_spec() + made
                &&& offered(made) == samples@
                &&& final(self).accepted_spec() == old(self).accepted_spec() + kept
                &&& thinned(samples@, kept, final(self).lost_spec() - old(self).lost_spec())
            }),
            old(self).accepted_spec().len() + samples@.len() <= old(self).room_spec()
                ==> final(self).accepted_spec() == old(self).accepted_spec() + samples@,
    {
        let ghost before = offers(self.producer);
        let ghost mut made = Seq::<(u32, bool)>::empty();
        let mut dropped: u64 = 0;
        let mut i: usize = 0;
        proof {
            assert(before + made =~= before);
            assert(went_in(before) + went_in(made) =~= went_in(before));
            assert(offered(made) =~= samples@.take(0));
        }
        while i < samples.len()
            invariant
                i <= samples.len(),
                dropped <= i,
                room(self.producer) == room(old(self).producer),
                carried(self.producer) == carried(old(self).producer),
                self.dropped == old(self).dropped,
                before == offers(old(self).producer),
                offers(self.producer) == before + made,
                offered(made) == samples@.take(i as int),
                went_in(before + made) == went_in(before) + went_in(made),
                old(self).well_formed() ==> went_in(before + made).is_prefix_of(
                    carried(self.producer),
                ),
                thinned(samples@.take(i as int), went_in(made), dropped as int),
                went_in(before).len() + samples@.len() <= room(self.producer) ==> went_in(made)
                    == samples@.take(i as int),
            decreases samples.len() - i,
        {
            let sample: u32 = samples[i];
            let fitted = push_sample(&mut self.producer, sample);
            proof {
                let longer = made.push((sample, fitted));
                assert(samples@.take(i + 1) =~= samples@.take(i as int).push(sample));
                assert(samples@.take(i + 1).drop_last() =~= samples@.take(i as int));
                assert(longer.drop_last() =~= made);
                assert(before + longer =~= (before + made).push((sample, fitted)));
                assert((before + longer).drop_last() =~= before + made);
                assert(offered(longer) =~= offered(made).push(sample));
                if fitted {
                    assert(went_in(longer) == went_in(made).push(sample));
                    assert(went_in(longer).drop_last() =~= went_in(made));
                    assert(went_in(before) + went_in(longer) =~= (went_in(before) + went_in(
                        made,
                    )).push(sample));
                }
                made = longer;
            }
            if !fitted {
                dropped += 1;
            }
            i += 1;
        }
        proof {
            assert(samples@.take(i as int) =~= samples@);
            assert(offers(self.producer).skip(before.len() as int) =~= made);
        }
        if dropped > 0 {
            report_lost(&mut self.dropped, dropped);
        }
    }
}

/// The ordinary-thread end, where all the real work happens.
pub struct SampleSource {
    consumer: rtrb::Consumer<u32>,
    dropped: Arc<AtomicU64>,
}

impl SampleSource {
    /// What each look into the queue has found, in order: a sample, or nothing.
    pub closed spec fn attempts_spec(&self) -> Seq<Option<u32>> {
        attempts(self.consumer)
    }

    /// Whether a sample is queued that stays there until this side takes it.
    pub closed spec fn waiting_spec(&self) -> bool {
        waiting(self.consumer)
    }

    /// Whether the queue is found empty at some time before this side next takes a sample.
    pub closed spec fn vacant_spec(&self) -> bool {
        vacant(self.consumer)
    }

    /// Whether the count of lost samples shows this value at some time in the channel's life.
    pub closed spec fn shows_spec(&self, value: u64) -> bool {
        shows(*self.dropped, value)
    }

    /// Everything that comes out of the channel in its life.
    pub closed spec fn due_spec(&self) -> Seq<u32> {
        due(self.consumer)
    }

    /// How many samples are reported as lost in the channel's life.
    pub closed spec fn lost_in_all_spec(&self) -> nat {
        added_in_all(*self.dropped)
    }

    /// What arrived so far is where everything that does begins.
    pub open spec fn well_formed(&self) -> bool {
        self.taken_spec().is_prefix_of(self.due_spec())
    }

    /// The samples that arrived, in order.
    pub open spec fn taken_spec(&self) -> Seq<u32> {
        found(self.attempts_spec())
    }

    /// Move everything currently queued into `out`, returning how many samples arrived.
    ///
    /// How many are queued depends on the backend's thread; every one that leaves the queue
    /// ends up in `out`, in order, and it goes on until the queue is found empty.
    pub fn drain(&mut self, out: &mut Vec<u32>) -> (count: usize)
        ensures
            ({
                let arrived = final(out)@.skip(old(out)@.len() as int);
                &&& final(out)@ == old(out)@ + arrived
                &&& final(self).attempts_spec() == old(self).attempts_spec() + until_nothing(
                    arrived,
                )
                &&& final(self).taken_spec() == old(self).taken_spec() + arrived
                &&& count == arrived.len()
            }),
            old(self).waiting_spec() ==> count > 0,
            final(self).due_spec() == old(self).due_spec(),
            final(self).lost_in_all_spec() == old(self).lost_in_all_spec(),
            forall|value: u64| #[trigger]
                final(self).shows_spec(value) == old(self).shows_spec(value),
            count == 0 ==> old(self).vacant_spec(),
            final(self).taken_spec().is_prefix_of(final(self).due_spec()),
    {
        let ghost before = attempts(self.consumer);
        let ghost start = out@;
        let ghost mut arrived = Seq::<u32>::empty();
        let mut count: usize = 0;
        let mut more = true;
        proof {
            assert(each_of(arrived) =~= Seq::empty());
            assert(attempts(self.consumer) =~= before + each_of(arrived));
            assert(found(before) =~= found(before) + arrived);
            assert(out@ =~= start + arrived);
        }
        while more && count < usize::MAX
            invariant
                before == attempts(old(self).consumer),
                attempts(self.consumer) == before + (if more {
                    each_of(arrived)
                } else {
                    each_of(arrived).push(None)
                }),
                found(attempts(self.consumer)) == found(before) + arrived,
                out@ == start + arrived,
                count == arrived.len(),
                !more ==> count < usize::MAX,
                due(self.consumer) == due(old(self).consumer),
                self.dropped == old(self).dropped,
                count > 0 || !more ==> found(attempts(self.consumer)).is_prefix_of(
                    due(self.consumer),
                ),
                count == 0 && more ==> self.consumer == old(self).consumer,
                count == 0 && !more ==> !waiting(old(self).consumer) && vacant(old(self).consumer),
            decreases usize::MAX - count, more as int,
        {
            let ghost so_far = attempts(self.consumer);
            match pop_sample(&mut self.consumer) {
                Some(sample) => {
                    out.push(sample);
                    count += 1;
                    proof {
                        let longer = arrived.push(sample);
                        assert(so_far.push(Some(sample)).drop_last() =~= so_far);
                        assert(each_of(longer) =~= each_of(arrived).push(Some(sample)));
                        assert(before + each_of(longer) =~= so_far.push(Some(sample)));
                        assert(found(before) + longer =~= (found(before) + arrived).push(sample));
                        assert(start + longer =~= (start + arrived).push(sample));
                        arrived = longer;
                    }
                },
                None => {
                    more = false;
                    proof {
                        assert(so_far.push(None).drop_last() =~= so_far);
                        assert(before + each_of(arrived).push(None) =~= so_far.push(None));
                    }
                },
            }
        }
        assert(out@.skip(start.len() as int) =~= arrived);
        count
    }

    /// Samples lost because this side could not keep up, as far as the other side has
    /// reported them: what the channel's count shows, and no more than are lost in its life.
    pub fn dropped(&self) -> (result: u64)
        ensures
            self.shows_spec(result),
            result <= self.lost_in_all_spec(),
    {
        read_lost(&self.dropped)
    }

    /// Whether nothing is queued right now. What is queued stays so until this side takes it;
    /// an empty queue may fill at any time.
    pub fn is_empty(&self) -> (result: bool)
        ensures
            !result ==> self.waiting_spec(),
            result ==> self.vacant_spec(),
    {
        ring_is_empty(&self.consumer)
    }
}

/// Create a capture channel with room for `capacity` samples, and for one at the least.
///
/// Sized in the caller from the sample rate: it needs to absorb the consumer being
/// descheduled, without being so large that a genuinely stuck consumer hides behind it.
pub fn channel(capacity: usize) -> (result: (SampleSink, SampleSource))
    requires
        capacity * 4 <= isize::MAX,
    ensures
        result.0.well_formed(),
        result.1.well_formed(),
        result.0.carried_spec() == result.1.due_spec(),
        result.0.lost_in_all_spec() == result.1.lost_in_all_spec(),
        result.0.offers_spec() == Seq::<(u32, bool)>::empty(),
        result.0.accepted_spec() == Seq::<u32>::empty(),
        result.0.room_spec() == (if capacity == 0 {
            1
        } else {
            capacity as nat
        }),
        result.0.lost_spec() == 0,
        result.1.attempts_spec() == Seq::<Option<u32>>::empty(),
        result.1.taken_spec() == Seq::<u32>::empty(),
{
    let slots: usize = if capacity == 0 {
        1
    } else {
        capacity
    };
    let (producer, consumer) = new_ring(slots);
    let dropped = Arc::new(new_counter());
    (SampleSink { producer, dropped: dropped.clone() }, SampleSource { consumer, dropped })
}

/// What is written arrives, in the order in which it was written: as far as both ends of a
/// channel have come, the samples that went in are the samples that came out.
pub proof fn law_what_is_written_arrives_in_order(sink: SampleSink, source: SampleSource, i: int)
    requires
        sink.well_formed(),
        source.well_formed(),
        sink.carried_spec() == source.due_spec(),
        0 <= i < sink.accepted_spec().len(),
        i < source.taken_spec().len(),
    ensures
        source.taken_spec()[i] == sink.accepted_spec()[i],
{
}

/// Something that produces captured audio.
pub trait AudioSource: Send {
    /// What this will produce, once started.
    fn info(&self) -> DeviceInfo;

    /// Begin delivering mono samples into `sink`.
    ///
    /// Backends that produce interleaved multi-channel audio downmix before writing, so that
    /// everything downstream deals in mono only.
    fn start(&mut self, sink: SampleSink) -> Result<(), AudioError>;

    /// Stop delivering and release the device.
    fn stop(&mut self);
}

/// Enumerate what a backend can capture from.
pub trait AudioHost {
    fn devices(&self) -> Result<Vec<DeviceInfo>, AudioError>;

    /// Resolve a configured selector to a concrete device name.
    fn resolve(&self, selector: &DeviceSelector) -> Result<DeviceInfo, AudioError>;
}

} // verus!
