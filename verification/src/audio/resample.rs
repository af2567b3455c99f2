//! Rate conversion to the format recordings are stored in: what goes into the filter, and what
//! of its output belongs to the recording.
//!
//! Mostly unused in practice, since the device is asked for the target rate directly. The
//! filter itself works on fixed-size chunks and runs elsewhere; the bookkeeping around it is
//! here, and two corrections that a naive wrapper misses are part of it:
//!
//! * The filter's output delay is discarded. Left in, every recording would begin with a
//!   fraction of a second of nothing and be shifted by that much.
//! * The tail is drained by pushing silence, since the filter holds back roughly a sub-chunk.
//!
//! Together these make the output length exact: `n` input samples become `n * to / from`
//! output samples, not approximately that.

use vstd::prelude::*;

use crate::text::{concat, concat3, decimal_text};

verus! {

/// How often silence is pushed to get the tail out: bounded, so that a filter that never
/// converges cannot be fed forever.
pub const MAX_SILENCE: u32 = 64;

/// Why rate conversion failed.
#[derive(Debug, Clone, PartialEq, Eq)]
pub enum ResampleError {
    Unsupported { from: u32, to: u32, source: String },
    Failed(String),
}

/// What a failed rate conversion is called.
pub open spec fn resample_error_text(error: ResampleError) -> Seq<char> {
    match error {
        ResampleError::Unsupported { from, to, source } => "cannot resample from "@
            + crate::text::decimal(from as nat) + " Hz to "@ + crate::text::decimal(to as nat)
            + " Hz: "@ + source@,
        ResampleError::Failed(source) => "resampling failed: "@ + source@,
    }
}

impl ResampleError {
    /// The failure in words.
    pub fn to_text(&self) -> (result: String)
        ensures
            result@ == resample_error_text(*self),
    {
        match self {
            ResampleError::Unsupported { from, to, source } => {
                let mut out = concat3(
                    "cannot resample from ",
                    decimal_text(*from as u64).as_str(),
                    " Hz to ",
                );
                out.append(decimal_text(*to as u64).as_str());
                out.append(" Hz: ");
                out.append(source.as_str());
                out
            },
            ResampleError::Failed(source) => concat("resampling failed: ", source.as_str()),
        }
    }
}

/// How many samples the filter takes at a time: a quarter of a second, long enough to be
/// efficient and short enough that what is held back between calls stays small.
pub open spec fn chunk_length(from: u32) -> int {
    if from / 4 < 256 {
        256
    } else {
        (from / 4) as int
    }
}

/// How many samples the filter takes at a time.
pub fn chunk_size(from: u32) -> (result: usize)
    ensures
        result == chunk_length(from),
{
    if from / 4 < 256 {
        256
    } else {
        (from / 4) as usize
    }
}

/// How many output samples `consumed` input samples amount to.
pub open spec fn expected(consumed: int, from: u32, to: u32) -> int {
    (consumed * to) / from as int
}

/// `count` samples of silence.
pub open spec fn silent(count: int) -> Seq<u32> {
    Seq::new(count as nat, |i: int| 0u32)
}

/// What the bookkeeping knows.
pub struct ResamplerView {
    pub from: u32,
    pub to: u32,
    /// Input that has not filled a chunk yet.
    pub pending: Seq<u32>,
    /// Output samples still to be discarded as the filter's start-up delay.
    pub skip: int,
    /// Output samples handed back so far.
    pub emitted: int,
    /// Input samples accepted so far, which fixes the exact output length.
    pub consumed: int,
}

impl ResamplerView {
    /// Whether there is nothing to convert.
    pub open spec fn pass_through(self) -> bool {
        self.from == self.to
    }

    /// What more input leads to.
    pub open spec fn accepted(self, samples: Seq<u32>) -> ResamplerView {
        if self.pass_through() {
            ResamplerView {
                consumed: self.consumed + samples.len(),
                emitted: self.emitted + samples.len(),
                ..self
            }
        } else {
            ResamplerView {
                consumed: self.consumed + samples.len(),
                pending: self.pending + samples,
                ..self
            }
        }
    }

    /// How much of the filter's next output is start-up delay.
    pub open spec fn delayed(self, converted: Seq<u32>) -> int {
        if self.skip < converted.len() {
            self.skip
        } else {
            converted.len() as int
        }
    }

    /// What the filter's output leads to.
    pub open spec fn absorbed(self, converted: Seq<u32>) -> ResamplerView {
        ResamplerView {
            skip: self.skip - self.delayed(converted),
            emitted: self.emitted + converted.len() - self.delayed(converted),
            ..self
        }
    }

    /// How many output samples there are beyond what the input amounts to.
    pub open spec fn overshoot(self) -> int {
        let target = expected(self.consumed, self.from, self.to);
        if self.emitted > target {
            self.emitted - target
        } else {
            0
        }
    }

    /// Whether the filter still owes output.
    pub open spec fn owes(self) -> bool {
        self.emitted < expected(self.consumed, self.from, self.to)
    }
}

/// What a flush calls for next.
#[derive(Debug)]
pub enum Flush {
    /// The last of the input, padded with silence, goes through the filter.
    Tail(Vec<u32>),
    /// Silence goes through the filter.
    Silence(Vec<u32>),
    /// Everything is out; [`Resampler::settle`] trims the padding off.
    Settled,
}

/// The bookkeeping around a rate conversion of mono audio.
#[derive(Debug)]
pub struct Resampler {
    from: u32,
    to: u32,
    chunk: usize,
    pending: Vec<u32>,
    skip: usize,
    emitted: usize,
    consumed: usize,
}

impl View for Resampler {
    type V = ResamplerView;

    closed spec fn view(&self) -> ResamplerView {
        ResamplerView {
            from: self.from,
            to: self.to,
            pending: self.pending@,
            skip: self.skip as int,
            emitted: self.emitted as int,
            consumed: self.consumed as int,
        }
    }
}

impl Resampler {
    /// Whether the output length of what was accepted can be computed.
    pub closed spec fn wf(self) -> bool {
        self@.from != self@.to ==> {
            &&& self.from > 0
            &&& self.chunk == chunk_length(self.from)
            &&& fits(self.consumed as int, self.from, self.to)
        }
    }

    /// The bookkeeping for a conversion `from` one rate `to` another with a filter that
    /// delays its output by `delay` samples; nothing is converted when the rates match.
    pub fn new(from: u32, to: u32, delay: usize) -> (result: Self)
        requires
            from != to ==> from > 0,
        ensures
            result.wf(),
            result@ == ResamplerView::fresh(from, to, delay as int),
    {
        let skip: usize = if from == to {
            0
        } else {
            delay
        };
        let resampler = Resampler {
            from,
            to,
            chunk: chunk_size(from),
            pending: Vec::new(),
            skip,
            emitted: 0,
            consumed: 0,
        };
        assert(resampler.pending@ =~= Seq::<u32>::empty());
        resampler
    }

    /// Whether there is nothing to convert.
    pub fn is_pass_through(&self) -> (result: bool)
        ensures
            result == self@.pass_through(),
    {
        self.from == self.to
    }

    /// Take in more input. When there is nothing to convert it comes back as it is; otherwise
    /// [`Resampler::next_chunk`] says what goes through the filter.
    pub fn push(&mut self, samples: &[u32]) -> (result: Vec<u32>)
        requires
            old(self).wf(),
            old(self)@.consumed + samples@.len() <= usize::MAX,
            old(self)@.pass_through() ==> old(self)@.emitted + samples@.len() <= usize::MAX,
            !old(self)@.pass_through() ==> fits(
                old(self)@.consumed + samples@.len(),
                old(self)@.from,
                old(self)@.to,
            ),
        ensures
            final(self).wf(),
            final(self)@ == old(self)@.accepted(samples@),
            result@ == (if old(self)@.pass_through() {
                samples@
            } else {
                Seq::empty()
            }),
    {
        let mut out: Vec<u32> = Vec::new();
        self.consumed = self.consumed + samples.len();
        if self.from == self.to {
            self.emitted = self.emitted + samples.len();
            out.extend_from_slice(samples);
            assert(out@ =~= samples@);
        } else {
            self.pending.extend_from_slice(samples);
            assert(self.pending@ =~= old(self).pending@ + samples@);
            assert(out@ =~= Seq::<u32>::empty());
        }
        out
    }

    /// The next full chunk of input, to go through the filter; none while there is less.
    pub fn next_chunk(&mut self) -> (result: Option<Vec<u32>>)
        requires
            old(self).wf(),
            !old(self)@.pass_through(),
        ensures
            final(self).wf(),
            ({
                let n = chunk_length(old(self)@.from);
                if old(self)@.pending.len() >= n {
                    &&& result matches Some(chunk)
                    &&& chunk@ == old(self)@.pending.take(n)
                    &&& final(self)@ == (ResamplerView {
                        pending: old(self)@.pending.skip(n),
                        ..old(self)@
                    })
                } else {
                    result is None && final(self)@ == old(self)@
                }
            }),
    {
        if self.pending.len() < self.chunk {
            return None;
        }
        let mut chunk = self.pending.split_off(self.chunk);
        let ghost whole = old(self).pending@;
        assert(chunk@ =~= whole.skip(self.chunk as int));
        assert(self.pending@ =~= whole.take(self.chunk as int));
        std::mem::swap(&mut chunk, &mut self.pending);
        Some(chunk)
    }

    /// What the filter made of a chunk: the start-up delay is discarded, the rest is appended
    /// to `out`.
    pub fn absorb(&mut self, converted: &[u32], out: &mut Vec<u32>)
        requires
            old(self).wf(),
            old(self)@.emitted + converted@.len() <= usize::MAX,
        ensures
            final(self).wf(),
            final(self)@ == old(self)@.absorbed(converted@),
            final(out)@ == old(out)@ + converted@.skip(old(self)@.delayed(converted@)),
    {
        let dropped: usize = if self.skip < converted.len() {
            self.skip
        } else {
            converted.len()
        };
        self.skip = self.skip - dropped;
        let useful = vstd::slice::slice_subrange(converted, dropped, converted.len());
        assert(useful@ =~= converted@.skip(dropped as int));
        self.emitted = self.emitted + useful.len();
        out.extend_from_slice(useful);
        assert(out@ =~= old(out)@ + useful@);
    }

    fn target(&self) -> (result: usize)
        requires
            self.wf(),
            !self@.pass_through(),
        ensures
            result == expected(self@.consumed, self@.from, self@.to),
    {
        (self.consumed as u64 * self.to as u64 / self.from as u64) as usize
    }

    /// What a flush calls for next, when `fed` chunks of silence have gone through already.
    ///
    /// The final partial chunk is padded, and then silence is fed until the exact number of
    /// output samples has come out. Skipping this would lose the tail of every recording.
    pub fn flush(&mut self, fed: u32) -> (result: Flush)
        requires
            old(self).wf(),
            !old(self)@.pass_through() ==> old(self)@.pending.len() < chunk_length(
                old(self)@.from,
            ),
        ensures
            final(self).wf(),
            ({
                let n = chunk_length(old(self)@.from);
                let before = old(self)@;
                if before.pass_through() {
                    result is Settled && final(self)@ == before
                } else if before.pending.len() > 0 {
                    &&& result matches Flush::Tail(chunk)
                    &&& chunk@ == before.pending + silent(n - before.pending.len())
                    &&& final(self)@ == (ResamplerView { pending: Seq::empty(), ..before })
                } else if before.owes() && fed < MAX_SILENCE {
                    &&& result matches Flush::Silence(chunk)
                    &&& chunk@ == silent(n)
                    &&& final(self)@ == before
                } else {
                    result is Settled && final(self)@ == before
                }
            }),
    {
        if self.from == self.to {
            return Flush::Settled;
        }
        if self.pending.len() > 0 {
            let mut chunk: Vec<u32> = Vec::new();
            std::mem::swap(&mut chunk, &mut self.pending);
            let ghost tail = chunk@;
            chunk.resize(self.chunk, 0u32);
            proof {
                assert forall|i: int| 0 <= i < chunk@.len() implies chunk@[i] == (tail + silent(
                    self.chunk - tail.len(),
                ))[i] by {
                    if i < tail.len() {
                        assert(chunk@.subrange(0, tail.len() as int)[i] == tail[i]);
                    }
                }
                assert(chunk@ =~= tail + silent(self.chunk - tail.len()));
                assert(self.pending@ =~= Seq::<u32>::empty());
            }
            return Flush::Tail(chunk);
        }
        if self.emitted < self.target() && fed < MAX_SILENCE {
            let mut chunk: Vec<u32> = Vec::new();
            chunk.resize(self.chunk, 0u32);
            assert(chunk@ =~= silent(self.chunk as int));
            Flush::Silence(chunk)
        } else {
            Flush::Settled
        }
    }

    /// Trim the padding back off what a flush produced, so that `n` samples in is exactly
    /// `n * to / from` out.
    pub fn settle(&mut self, out: &mut Vec<u32>)
        requires
            old(self).wf(),
            !old(self)@.pass_through(),
        ensures
            final(self).wf(),
            final(self)@ == (ResamplerView {
                emitted: old(self)@.emitted - old(self)@.overshoot(),
                ..old(self)@
            }),
            final(out)@ == trimmed(old(out)@, old(self)@.overshoot()),
    {
        let target: usize = self.target();
        let overshoot: usize = if self.emitted > target {
            self.emitted - target
        } else {
            0
        };
        let length: usize = out.len();
        let kept: usize = if overshoot < length {
            length - overshoot
        } else {
            0
        };
        let ghost before = out@;
        out.truncate(kept);
        assert(out@ =~= before.take(kept as int));
        if kept == 0 {
            assert(out@ =~= Seq::<u32>::empty());
            assert(before.take(0) =~= Seq::<u32>::empty());
        }
        self.emitted = self.emitted - overshoot;
    }
}

/// Whether the output length of that much input can be computed.
pub open spec fn fits(consumed: int, from: u32, to: u32) -> bool {
    &&& consumed * to <= u64::MAX
    &&& expected(consumed, from, to) <= usize::MAX
}

/// Once the filter owes nothing, what has been handed back is exactly `n * to / from` samples
/// for `n` samples taken in.
pub proof fn law_the_output_length_is_exact(resampler: ResamplerView)
    requires
        !resampler.owes(),
    ensures
        resampler.emitted - resampler.overshoot() == expected(
            resampler.consumed,
            resampler.from,
            resampler.to,
        ),
{
}

/// The start-up delay is discarded once, however the filter's output is divided: nothing of
/// it is kept, and nothing else is lost.
pub proof fn law_the_delay_is_discarded_once(
    resampler: ResamplerView,
    first: Seq<u32>,
    second: Seq<u32>,
)
    requires
        resampler.skip >= 0,
    ensures
        resampler.absorbed(first).absorbed(second) == resampler.absorbed(first + second),
        first.skip(resampler.delayed(first)) + second.skip(
            resampler.absorbed(first).delayed(second),
        ) == (first + second).skip(resampler.delayed(first + second)),
{
    assert(first.skip(resampler.delayed(first)) + second.skip(
        resampler.absorbed(first).delayed(second),
    ) =~= (first + second).skip(resampler.delayed(first + second)));
}

/// However the input is divided, the same input is pending and the same length is due.
pub proof fn law_block_size_does_not_matter(
    resampler: ResamplerView,
    first: Seq<u32>,
    second: Seq<u32>,
)
    ensures
        resampler.accepted(first).accepted(second) == resampler.accepted(first + second),
{
    assert(resampler.pending + first + second =~= resampler.pending + (first + second));
}

/// Something that happens in a conversion.
pub enum Happening {
    /// More input is pushed.
    Pushed(Seq<u32>),
    /// The next chunk has gone through the filter, which made this of it.
    Filtered(Seq<u32>),
}

impl ResamplerView {
    /// The bookkeeping of a conversion that has not begun.
    pub open spec fn fresh(from: u32, to: u32, delay: int) -> ResamplerView {
        ResamplerView {
            from,
            to,
            pending: Seq::empty(),
            skip: if from == to {
                0
            } else {
                delay
            },
            emitted: 0,
            consumed: 0,
        }
    }

    /// What something that happens leads to.
    pub open spec fn after(self, happening: Happening) -> ResamplerView {
        match happening {
            Happening::Pushed(samples) => self.accepted(samples),
            Happening::Filtered(converted) => ResamplerView {
                pending: if self.pending.len() < chunk_length(self.from) {
                    Seq::empty()
                } else {
                    self.pending.skip(chunk_length(self.from))
                },
                ..self.absorbed(converted)
            },
        }
    }

    /// What something that happens hands back.
    pub open spec fn hands_back(self, happening: Happening) -> Seq<u32> {
        match happening {
            Happening::Pushed(samples) => if self.pass_through() {
                samples
            } else {
                Seq::empty()
            },
            Happening::Filtered(converted) => converted.skip(self.delayed(converted)),
        }
    }

    /// What everything that happens leads to.
    pub open spec fn after_all(self, happenings: Seq<Happening>) -> ResamplerView
        decreases happenings.len(),
    {
        if happenings.len() == 0 {
            self
        } else {
            self.after_all(happenings.drop_last()).after(happenings.last())
        }
    }

    /// What everything that happens hands back, in order.
    pub open spec fn handed_back(self, happenings: Seq<Happening>) -> Seq<u32>
        decreases happenings.len(),
    {
        if happenings.len() == 0 {
            Seq::empty()
        } else {
            let earlier = happenings.drop_last();
            self.handed_back(earlier) + self.after_all(earlier).hands_back(happenings.last())
        }
    }
}

/// All the input that is pushed, in order.
pub open spec fn pushed(happenings: Seq<Happening>) -> Seq<u32>
    decreases happenings.len(),
{
    if happenings.len() == 0 {
        Seq::empty()
    } else {
        pushed(happenings.drop_last()) + (match happenings.last() {
            Happening::Pushed(samples) => samples,
            Happening::Filtered(_) => Seq::empty(),
        })
    }
}

/// Whether the filter was not asked.
pub open spec fn unfiltered(happenings: Seq<Happening>) -> bool {
    forall|i: int| 0 <= i < happenings.len() ==> (#[trigger] happenings[i]) is Pushed
}

/// What is left of the output of a flush when its padding is trimmed off.
pub open spec fn trimmed(out: Seq<u32>, overshoot: int) -> Seq<u32> {
    if overshoot < out.len() {
        out.take(out.len() - overshoot)
    } else {
        Seq::empty()
    }
}

/// The books follow what happens: everything that was pushed is counted, and everything that
/// was handed back is.
proof fn lemma_books(start: ResamplerView, happenings: Seq<Happening>)
    requires
        start.skip >= 0,
    ensures
        start.after_all(happenings).from == start.from,
        start.after_all(happenings).to == start.to,
        start.after_all(happenings).skip >= 0,
        start.after_all(happenings).consumed == start.consumed + pushed(happenings).len(),
        start.after_all(happenings).emitted == start.emitted + start.handed_back(happenings).len(),
    decreases happenings.len(),
{
    if happenings.len() > 0 {
        lemma_books(start, happenings.drop_last());
    }
}

/// A whole conversion is exact: however the input was divided, the outputs of all pushes and
/// of one flush together hold exactly `n * to / from` samples for `n` samples in, given a
/// filter that owes nothing at the end and was not ahead of its input when the flush began.
pub proof fn law_a_whole_conversion_is_exact(
    from: u32,
    to: u32,
    delay: int,
    pushes: Seq<Happening>,
    flush: Seq<Happening>,
)
    requires
        from > 0,
        delay >= 0,
        pushed(flush).len() == 0,
        !ResamplerView::fresh(from, to, delay).after_all(pushes).after_all(flush).owes(),
        ResamplerView::fresh(from, to, delay).handed_back(pushes).len() <= expected(
            pushed(pushes).len() as int,
            from,
            to,
        ),
    ensures
        ({
            let start = ResamplerView::fresh(from, to, delay);
            let middle = start.after_all(pushes);
            let end = middle.after_all(flush);
            start.handed_back(pushes).len() + trimmed(
                middle.handed_back(flush),
                end.overshoot(),
            ).len() == expected(pushed(pushes).len() as int, from, to)
        }),
{
    let start = ResamplerView::fresh(from, to, delay);
    lemma_books(start, pushes);
    lemma_books(start.after_all(pushes), flush);
}

/// Where the rates match there is nothing to convert: what is pushed comes back as it is, as
/// much as was pushed, and a flush adds nothing.
pub proof fn law_matching_rates_change_nothing(rate: u32, delay: int, pushes: Seq<Happening>)
    requires
        rate > 0,
        unfiltered(pushes),
    ensures
        ResamplerView::fresh(rate, rate, delay).handed_back(pushes) == pushed(pushes),
        expected(pushed(pushes).len() as int, rate, rate) == pushed(pushes).len(),
        !ResamplerView::fresh(rate, rate, delay).after_all(pushes).owes(),
    decreases pushes.len(),
{
    let start = ResamplerView::fresh(rate, rate, delay);
    lemma_books(start, pushes);
    vstd::arithmetic::div_mod::lemma_div_multiples_vanish(pushed(pushes).len() as int, rate as int);
    assert(pushed(pushes).len() * rate == rate * pushed(pushes).len()) by (nonlinear_arith);
    if pushes.len() > 0 {
        let earlier = pushes.drop_last();
        assert(forall|i: int| 0 <= i < earlier.len() ==> earlier[i] == pushes[i]);
        law_matching_rates_change_nothing(rate, delay, earlier);
        lemma_books(start, earlier);
        assert(pushes[pushes.len() - 1] is Pushed);
    }
}

/// A second stays a second, whatever the two rates are, and a length that does not come out
/// even is rounded down.
pub proof fn law_a_second_stays_a_second(seconds: int, consumed: int, from: u32, to: u32)
    requires
        from > 0,
        0 <= seconds,
        0 <= consumed,
    ensures
        expected(seconds * from, from, to) == seconds * to,
        expected(consumed, from, to) * from <= consumed * to < (expected(consumed, from, to) + 1)
            * from,
{
    let rate = from as int;
    assert(seconds * rate * to == (seconds * to) * rate) by (nonlinear_arith);
    vstd::arithmetic::div_mod::lemma_div_by_multiple(seconds * to, rate);
    vstd::arithmetic::div_mod::lemma_fundamental_div_mod(consumed * to, rate);
    let whole = (consumed * to) / rate;
    let rest = (consumed * to) % rate;
    assert(0 <= rest < rate);
    assert(whole * rate <= consumed * to < (whole + 1) * rate) by (nonlinear_arith)
        requires
            consumed * to == rate * whole + rest,
            0 <= rest < rate,
    ;
}

/// The filter works on a quarter of a second at a time, and on 256 samples at the least.
pub proof fn law_a_chunk_is_a_quarter_of_a_second(from: u32)
    ensures
        from >= 1024 ==> chunk_length(from) * 4 <= from < (chunk_length(from) + 1) * 4,
        from < 1024 ==> chunk_length(from) == 256,
{
}

} // verus!
