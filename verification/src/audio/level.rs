//! Turning samples into something a person can read.
//!
//! The requirement is not "show that recording is on" but "show that the voice is actually
//! arriving": that the microphone is not muted, not across the room, not clipping. That is
//! what this produces: a level a meter can draw, plus the classifications behind the
//! warnings.
//!
//! Root mean squares and decibels are computed by the caller and handed in; what is decided
//! from them is decided here.

use vstd::prelude::*;

use crate::config::LevelsConfig;
use crate::session::{InputWarningKind, LevelSummary};
use crate::single::Single;

verus! {

/// The floor reported instead of negative infinity for digital silence: -100 dBFS, as a bit
/// pattern.
///
/// A true zero sample is -inf dBFS, which cannot be drawn on a meter or averaged. Every
/// audio tool picks a floor; this one is below anything a microphone produces.
pub const SILENCE_FLOOR_DBFS: u32 = 0xc2c8_0000;

/// The bit pattern of the number one, the magnitude of a sample at full scale.
pub const FULL_SCALE: u32 = 0x3f80_0000;

/// One block's worth of measurement, as carried by a `level` event.
#[derive(Debug, Clone, Copy, PartialEq, Eq, Structural)]
pub struct LevelSnapshot {
    pub rms_dbfs: Single,
    pub peak_dbfs: Single,
    /// Above the speech threshold, as opposed to room tone. This is the bit that says the
    /// user's voice is arriving rather than merely that the stream is open.
    pub speech: bool,
    pub clipping: bool,
    pub clipped_samples: u64,
}

/// Whether a sample is at or beyond full scale, where the converter has lost its true value.
pub open spec fn is_clipped(sample: u32) -> bool {
    Single { bits: sample }.magnitude_spec().at_least_spec(Single { bits: FULL_SCALE })
}

/// How many samples are at or beyond full scale.
pub open spec fn clipped_in(samples: Seq<u32>) -> nat {
    samples.filter(|s: u32| is_clipped(s)).len()
}

/// The largest magnitude among `samples` and `floor`.
pub open spec fn loudest(samples: Seq<u32>, floor: Single) -> Single
    decreases samples.len(),
{
    if samples.len() == 0 {
        floor
    } else {
        let rest = loudest(samples.drop_last(), floor);
        let magnitude = Single { bits: samples.last() }.magnitude_spec();
        if rest.below_spec(magnitude) {
            magnitude
        } else {
            rest
        }
    }
}

/// No sample is louder than the loudest, and the loudest is one of them unless none is
/// louder than the floor.
pub proof fn law_loudest_is_the_maximum(samples: Seq<u32>, floor: Single)
    requires
        floor.rank() is Some,
    ensures
        loudest(samples, floor).rank() is Some,
        !loudest(samples, floor).below_spec(floor),
        forall|i: int|
            0 <= i < samples.len() ==> !loudest(samples, floor).below_spec(
                (Single { bits: #[trigger] samples[i] }).magnitude_spec(),
            ),
        loudest(samples, floor) == floor || exists|i: int|
            0 <= i < samples.len() && loudest(samples, floor) == (Single {
                bits: #[trigger] samples[i],
            }).magnitude_spec(),
    decreases samples.len(),
{
    if samples.len() > 0 {
        let shorter = samples.drop_last();
        law_loudest_is_the_maximum(shorter, floor);
        assert forall|i: int| 0 <= i < samples.len() implies !loudest(samples, floor).below_spec(
            (Single { bits: #[trigger] samples[i] }).magnitude_spec(),
        ) by {
            if i < shorter.len() {
                assert(samples[i] == shorter[i]);
            }
        }
        let magnitude = Single { bits: samples.last() }.magnitude_spec();
        if loudest(samples, floor) == magnitude {
            assert(samples[samples.len() - 1] == samples.last());
        } else if loudest(shorter, floor) != floor {
            let i = choose|i: int|
                0 <= i < shorter.len() && loudest(shorter, floor) == (Single {
                    bits: #[trigger] shorter[i],
                }).magnitude_spec();
            assert(samples[i] == shorter[i]);
        }
    }
}

/// The largest magnitude among `samples`, or `floor` when none is larger.
pub fn peak_of(samples: &[u32], floor: Single) -> (result: Single)
    ensures
        result == loudest(samples@, floor),
{
    let mut peak = floor;
    let mut i: usize = 0;
    while i < samples.len()
        invariant
            i <= samples.len(),
            peak == loudest(samples@.take(i as int), floor),
        decreases samples.len() - i,
    {
        let magnitude = Single { bits: samples[i] }.magnitude();
        assert(samples@.take(i + 1).drop_last() =~= samples@.take(i as int));
        if peak.below(magnitude) {
            peak = magnitude;
        }
        i += 1;
    }
    assert(samples@.take(i as int) =~= samples@);
    peak
}

/// How many samples are at or beyond full scale.
fn count_clipped(samples: &[u32]) -> (result: u64)
    ensures
        result == clipped_in(samples@),
{
    let mut clipped: u64 = 0;
    let mut i: usize = 0;
    let ghost pred = |s: u32| is_clipped(s);
    assert(samples@.take(0).filter(pred) =~= Seq::<u32>::empty()) by {
        reveal(Seq::filter);
    }
    while i < samples.len()
        invariant
            i <= samples.len(),
            clipped <= i,
            pred == (|s: u32| is_clipped(s)),
            clipped == samples@.take(i as int).filter(pred).len(),
        decreases samples.len() - i,
    {
        proof {
            assert(samples@.take(i + 1) =~= samples@.take(i as int).push(samples@[i as int]));
            samples@.take(i as int).lemma_filter_len_push(pred, samples@[i as int]);
        }
        if (Single { bits: samples[i] }).magnitude().at_least(Single { bits: FULL_SCALE }) {
            clipped += 1;
        }
        i += 1;
    }
    assert(samples@.take(i as int) =~= samples@);
    clipped
}

/// What a block of `samples` with these levels is classified as.
pub open spec fn snapshot_of(
    levels: LevelsConfig,
    samples: Seq<u32>,
    rms_dbfs: Single,
    peak_dbfs: Single,
) -> LevelSnapshot {
    if samples.len() == 0 {
        LevelSnapshot {
            rms_dbfs: Single { bits: SILENCE_FLOOR_DBFS },
            peak_dbfs: Single { bits: SILENCE_FLOOR_DBFS },
            speech: false,
            clipping: false,
            clipped_samples: 0,
        }
    } else {
        LevelSnapshot {
            rms_dbfs,
            peak_dbfs,
            speech: rms_dbfs.at_least_spec(levels.speech_dbfs.value),
            clipping: clipped_in(samples) > 0,
            clipped_samples: clipped_in(samples) as u64,
        }
    }
}

/// The warning that clipping, a peak and an RMS level warrant together.
///
/// Clipping wins over quietness because a clipped recording is already damaged, while a
/// quiet one merely transcribes worse.
pub open spec fn warning_for(
    clipping: bool,
    peak_dbfs: Single,
    rms_dbfs: Single,
    levels: LevelsConfig,
) -> Option<InputWarningKind> {
    if clipping {
        Some(InputWarningKind::Clipping)
    } else if peak_dbfs.below_spec(levels.silence_dbfs.value) {
        Some(InputWarningKind::Silence)
    } else if rms_dbfs.below_spec(levels.too_quiet_dbfs.value) {
        Some(InputWarningKind::TooQuiet)
    } else {
        None
    }
}

/// Measures blocks of samples against the configured thresholds.
#[derive(Debug, Clone)]
pub struct LevelMeter {
    pub levels: LevelsConfig,
}

impl LevelMeter {
    pub fn new(levels: LevelsConfig) -> (result: Self)
        ensures
            result.levels == levels,
    {
        LevelMeter { levels }
    }

    /// Classify one block whose RMS and peak levels have been computed. An empty block is
    /// silence, not an error.
    pub fn measure(&self, samples: &[u32], rms_dbfs: Single, peak_dbfs: Single) -> (result:
        LevelSnapshot)
        ensures
            result == snapshot_of(self.levels, samples@, rms_dbfs, peak_dbfs),
    {
        if samples.len() == 0 {
            return LevelSnapshot {
                rms_dbfs: Single { bits: SILENCE_FLOOR_DBFS },
                peak_dbfs: Single { bits: SILENCE_FLOOR_DBFS },
                speech: false,
                clipping: false,
                clipped_samples: 0,
            };
        }
        let clipped: u64 = count_clipped(samples);
        LevelSnapshot {
            rms_dbfs,
            peak_dbfs,
            speech: rms_dbfs.at_least(self.levels.speech_dbfs.value),
            clipping: clipped > 0,
            clipped_samples: clipped,
        }
    }

    /// The warning this block warrants, if any.
    pub fn warning(&self, snapshot: &LevelSnapshot) -> (result: Option<InputWarningKind>)
        ensures
            result == warning_for(
                snapshot.clipping,
                snapshot.peak_dbfs,
                snapshot.rms_dbfs,
                self.levels,
            ),
    {
        if snapshot.clipping {
            Some(InputWarningKind::Clipping)
        } else if snapshot.peak_dbfs.below(self.levels.silence_dbfs.value) {
            Some(InputWarningKind::Silence)
        } else if snapshot.rms_dbfs.below(self.levels.too_quiet_dbfs.value) {
            Some(InputWarningKind::TooQuiet)
        } else {
            None
        }
    }
}

/// The warning a whole recording warrants, judged from its totals.
///
/// Deliberately not "the worst thing any single block did". Every recording contains quiet
/// blocks, since the pauses between words are quiet by definition, so taking the worst block
/// would label almost everything as too quiet. A summary judges the recording; the per-block
/// [`LevelMeter::warning`] drives the live indicator, where a transient warning is both
/// appropriate and transient.
pub fn summary_warning(summary: &LevelSummary, levels: &LevelsConfig) -> (result: Option<
    InputWarningKind,
>)
    ensures
        result == warning_for(
            summary.clipped_samples > 0,
            summary.peak_dbfs,
            summary.mean_rms_dbfs,
            *levels,
        ),
{
    if summary.clipped_samples > 0 {
        Some(InputWarningKind::Clipping)
    } else if summary.peak_dbfs.below(levels.silence_dbfs.value) {
        Some(InputWarningKind::Silence)
    } else if summary.mean_rms_dbfs.below(levels.too_quiet_dbfs.value) {
        Some(InputWarningKind::TooQuiet)
    } else {
        None
    }
}

/// How long `samples` samples last at `sample_rate`, in milliseconds.
pub open spec fn millis_of(samples: int, sample_rate: u32) -> int {
    if sample_rate == 0 {
        0
    } else {
        (samples * 1000) / sample_rate as int
    }
}

/// How long `samples` samples last at `sample_rate`, in milliseconds.
pub(crate) fn samples_to_ms(samples: u64, sample_rate: u32) -> (result: u64)
    requires
        samples * 1000 <= u64::MAX,
    ensures
        result == millis_of(samples as int, sample_rate),
{
    if sample_rate == 0 {
        0
    } else {
        proof {
            let product = samples as int * 1000;
            vstd::arithmetic::div_mod::lemma_div_is_ordered_by_denominator(
                product,
                1,
                sample_rate as int,
            );
        }
        samples * 1000 / sample_rate as u64
    }
}

/// Running totals across a whole session, for `session.json`.
#[derive(Debug, Clone, Copy, PartialEq, Eq, Structural)]
pub struct LevelTotals {
    pub sample_rate: u32,
    pub samples: u64,
    /// The largest magnitude of any sample.
    pub peak: Single,
    pub speech_samples: u64,
    pub silence_samples: u64,
    pub clipped_samples: u64,
    pub silence_dbfs: Single,
    pub speech_dbfs: Single,
}

impl LevelTotals {
    /// Whether the counters are consistent: no sample is both speech and silence, and the
    /// milliseconds they amount to can be computed.
    pub open spec fn wf(self) -> bool {
        &&& self.speech_samples + self.silence_samples <= self.samples
        &&& self.samples * 1000 <= u64::MAX
    }

    /// Whether the counters have room for another block.
    pub open spec fn has_room(self, count: int, snapshot: LevelSnapshot) -> bool {
        &&& (self.samples + count) * 1000 <= u64::MAX
        &&& self.clipped_samples + snapshot.clipped_samples <= u64::MAX
    }

    /// The totals before any audio.
    pub open spec fn fresh(sample_rate: u32, levels: LevelsConfig) -> LevelTotals {
        LevelTotals {
            sample_rate,
            samples: 0,
            peak: Single { bits: 0 },
            speech_samples: 0,
            silence_samples: 0,
            clipped_samples: 0,
            silence_dbfs: levels.silence_dbfs.value,
            speech_dbfs: levels.speech_dbfs.value,
        }
    }

    /// The totals with one more block folded in.
    pub open spec fn with(self, samples: Seq<u32>, snapshot: LevelSnapshot) -> LevelTotals {
        let count = samples.len();
        let speech = snapshot.rms_dbfs.at_least_spec(self.speech_dbfs);
        let silence = !speech && snapshot.peak_dbfs.below_spec(self.silence_dbfs);
        LevelTotals {
            samples: (self.samples + count) as u64,
            peak: loudest(samples, self.peak),
            clipped_samples: (self.clipped_samples + snapshot.clipped_samples) as u64,
            speech_samples: if speech {
                (self.speech_samples + count) as u64
            } else {
                self.speech_samples
            },
            silence_samples: if silence {
                (self.silence_samples + count) as u64
            } else {
                self.silence_samples
            },
            ..self
        }
    }

    pub fn new(sample_rate: u32, levels: &LevelsConfig) -> (result: Self)
        ensures
            result == LevelTotals::fresh(sample_rate, *levels),
            result.wf(),
    {
        LevelTotals {
            sample_rate,
            samples: 0,
            peak: Single { bits: 0 },
            speech_samples: 0,
            silence_samples: 0,
            clipped_samples: 0,
            silence_dbfs: levels.silence_dbfs.value,
            speech_dbfs: levels.speech_dbfs.value,
        }
    }

    /// Fold in a block that has already been measured.
    ///
    /// Takes the snapshot rather than recomputing, so the summary can never disagree with
    /// the meter the user watched.
    pub fn add(&mut self, samples: &[u32], snapshot: &LevelSnapshot)
        requires
            old(self).wf(),
            old(self).has_room(samples@.len() as int, *snapshot),
        ensures
            *final(self) == old(self).with(samples@, *snapshot),
            final(self).wf(),
    {
        let count: u64 = samples.len() as u64;
        self.peak = peak_of(samples, self.peak);
        self.samples = self.samples + count;
        self.clipped_samples = self.clipped_samples + snapshot.clipped_samples;
        if snapshot.rms_dbfs.at_least(self.speech_dbfs) {
            self.speech_samples = self.speech_samples + count;
        } else if snapshot.peak_dbfs.below(self.silence_dbfs) {
            self.silence_samples = self.silence_samples + count;
        }
    }

    /// The summary of everything folded in, given what the peak and the mean amplitude are
    /// in dBFS.
    pub fn summarize(&self, peak_dbfs: Single, mean_rms_dbfs: Single) -> (result: LevelSummary)
        requires
            self.wf(),
        ensures
            result == (LevelSummary {
                peak_dbfs,
                mean_rms_dbfs,
                speech_ms: millis_of(self.speech_samples as int, self.sample_rate) as u64,
                silence_ms: millis_of(self.silence_samples as int, self.sample_rate) as u64,
                clipped_samples: self.clipped_samples,
            }),
    {
        LevelSummary {
            peak_dbfs,
            mean_rms_dbfs,
            speech_ms: samples_to_ms(self.speech_samples, self.sample_rate),
            silence_ms: samples_to_ms(self.silence_samples, self.sample_rate),
            clipped_samples: self.clipped_samples,
        }
    }
}

/// The summary counts the same clipping the meter reported: the two can never disagree about
/// what the user was shown.
pub proof fn law_totals_count_the_clipping_the_meter_reported(
    totals: LevelTotals,
    levels: LevelsConfig,
    samples: Seq<u32>,
    rms_dbfs: Single,
    peak_dbfs: Single,
)
    requires
        totals.has_room(
            samples.len() as int,
            snapshot_of(levels, samples, rms_dbfs, peak_dbfs),
        ),
    ensures
        ({
            let snapshot = snapshot_of(levels, samples, rms_dbfs, peak_dbfs);
            totals.with(samples, snapshot).clipped_samples == totals.clipped_samples
                + snapshot.clipped_samples
        }),
{
}

/// Silence and quietness are different problems, and clipping outranks both.
pub proof fn law_clipping_outranks_quietness(
    peak_dbfs: Single,
    rms_dbfs: Single,
    levels: LevelsConfig,
)
    ensures
        warning_for(true, peak_dbfs, rms_dbfs, levels) == Some(InputWarningKind::Clipping),
        warning_for(false, peak_dbfs, rms_dbfs, levels) != Some(InputWarningKind::Clipping),
{
}

/// A sample clips exactly when its magnitude is one or more: one more sample adds one to the
/// count exactly then.
pub proof fn law_a_sample_clips_at_full_scale(samples: Seq<u32>, sample: u32)
    ensures
        clipped_in(Seq::empty()) == 0,
        clipped_in(samples.push(sample)) == clipped_in(samples) + (if 0x3f80_0000 <= sample
            <= 0x7f80_0000 || 0xbf80_0000 <= sample <= 0xff80_0000 {
            1nat
        } else {
            0
        }),
{
    reveal(Seq::filter);
    let clipped = |s: u32| is_clipped(s);
    assert(samples.push(sample).drop_last() =~= samples);
    samples.lemma_filter_len_push(clipped, sample);
}

/// A block is speech exactly when its mean level reaches the threshold, and clips exactly when
/// a sample does. An empty block is silent, whatever it was measured at.
pub proof fn law_a_block_is_speech_at_its_threshold(
    levels: LevelsConfig,
    samples: Seq<u32>,
    rms_dbfs: Single,
    peak_dbfs: Single,
)
    ensures
        ({
            let snapshot = snapshot_of(levels, samples, rms_dbfs, peak_dbfs);
            let threshold = levels.speech_dbfs.value;
            &&& samples.len() > 0 ==> {
                &&& snapshot.rms_dbfs == rms_dbfs
                &&& snapshot.peak_dbfs == peak_dbfs
                &&& snapshot.speech <==> rms_dbfs.rank() is Some && threshold.rank() is Some
                    && rms_dbfs.rank()->0 >= threshold.rank()->0
                &&& snapshot.clipping <==> clipped_in(samples) >= 1
                &&& clipped_in(samples) <= u64::MAX ==> snapshot.clipped_samples == clipped_in(
                    samples,
                )
            }
            &&& samples.len() == 0 ==> {
                &&& !snapshot.speech && !snapshot.clipping && snapshot.clipped_samples == 0
                &&& snapshot.rms_dbfs.bits == 0xc2c8_0000
                &&& snapshot.peak_dbfs.bits == 0xc2c8_0000
            }
        }),
{
}

/// Without clipping, a recording is silent exactly when even its peak is below the silence
/// threshold, too quiet exactly when its peak is not but its mean is below that threshold, and
/// fine otherwise.
pub proof fn law_a_warning_tells_silence_from_quietness(
    peak_dbfs: Single,
    rms_dbfs: Single,
    levels: LevelsConfig,
)
    requires
        peak_dbfs.rank() is Some,
        rms_dbfs.rank() is Some,
        levels.silence_dbfs.value.rank() is Some,
        levels.too_quiet_dbfs.value.rank() is Some,
    ensures
        ({
            let silent = peak_dbfs.rank()->0 < levels.silence_dbfs.value.rank()->0;
            let quiet = rms_dbfs.rank()->0 < levels.too_quiet_dbfs.value.rank()->0;
            let warning = warning_for(false, peak_dbfs, rms_dbfs, levels);
            &&& warning == Some(InputWarningKind::Silence) <==> silent
            &&& warning == Some(InputWarningKind::TooQuiet) <==> !silent && quiet
            &&& warning is None <==> !silent && !quiet
        }),
{
}

/// A block adds its length to the total, and to speech exactly when its mean reaches the
/// speech threshold; to silence when it does not and even its peak is below the silence
/// threshold; and to neither in between.
pub proof fn law_a_block_is_speech_or_silence_or_neither(
    totals: LevelTotals,
    samples: Seq<u32>,
    snapshot: LevelSnapshot,
)
    requires
        totals.wf(),
        totals.has_room(samples.len() as int, snapshot),
        snapshot.rms_dbfs.rank() is Some,
        snapshot.peak_dbfs.rank() is Some,
        totals.speech_dbfs.rank() is Some,
        totals.silence_dbfs.rank() is Some,
    ensures
        ({
            let after = totals.with(samples, snapshot);
            let loud = snapshot.rms_dbfs.rank()->0 >= totals.speech_dbfs.rank()->0;
            let still = snapshot.peak_dbfs.rank()->0 < totals.silence_dbfs.rank()->0;
            &&& after.samples == totals.samples + samples.len()
            &&& after.speech_samples == totals.speech_samples + (if loud {
                samples.len() as int
            } else {
                0
            })
            &&& after.silence_samples == totals.silence_samples + (if !loud && still {
                samples.len() as int
            } else {
                0
            })
            &&& after.clipped_samples == totals.clipped_samples + snapshot.clipped_samples
            &&& after.peak == loudest(samples, totals.peak)
            &&& after.sample_rate == totals.sample_rate
            &&& after.speech_dbfs == totals.speech_dbfs
            &&& after.silence_dbfs == totals.silence_dbfs
        }),
{
}

/// Totals start at nothing, with the thresholds that are configured.
pub proof fn law_totals_start_at_nothing(sample_rate: u32, levels: LevelsConfig)
    ensures
        ({
            let fresh = LevelTotals::fresh(sample_rate, levels);
            &&& fresh.sample_rate == sample_rate
            &&& fresh.samples == 0 && fresh.speech_samples == 0 && fresh.silence_samples == 0
            &&& fresh.clipped_samples == 0 && fresh.peak.bits == 0
            &&& fresh.speech_dbfs == levels.speech_dbfs.value
            &&& fresh.silence_dbfs == levels.silence_dbfs.value
        }),
{
}

/// A second of samples is a thousand milliseconds, for every rate, and a length is rounded
/// down to a whole one.
pub proof fn law_a_second_of_samples_is_a_thousand_milliseconds(
    seconds: int,
    samples: int,
    sample_rate: u32,
)
    requires
        sample_rate > 0,
        0 <= seconds,
        0 <= samples,
    ensures
        millis_of(seconds * sample_rate, sample_rate) == seconds * 1000,
        millis_of(samples, sample_rate) * sample_rate <= samples * 1000,
        samples * 1000 < (millis_of(samples, sample_rate) + 1) * sample_rate,
        millis_of(samples, 0) == 0,
{
    let rate = sample_rate as int;
    assert(seconds * rate * 1000 == (seconds * 1000) * rate) by (nonlinear_arith);
    vstd::arithmetic::div_mod::lemma_div_by_multiple(seconds * 1000, rate);
    vstd::arithmetic::div_mod::lemma_fundamental_div_mod(samples * 1000, rate);
    let ms = (samples * 1000) / rate;
    let rest = (samples * 1000) % rate;
    assert(0 <= rest < rate);
    assert(ms * rate <= samples * 1000 < (ms + 1) * rate) by (nonlinear_arith)
        requires
            samples * 1000 == rate * ms + rest,
            0 <= rest < rate,
    ;
}

} // verus!
