//! Levels, lookback, the capture channel, and rate conversion.

use rubato::Resampler as _;
use voice_commander::audio::devices::find;
use voice_commander::audio::level::{
    summary_warning, LevelMeter, LevelSnapshot, LevelTotals, SILENCE_FLOOR_DBFS,
};
use voice_commander::audio::mictest::report;
use voice_commander::audio::resample::{chunk_size, Flush};
use voice_commander::audio::{
    channel, choose_config, AudioError, DeviceInfo, Found, MicReport, PreRollBuffer, ResampleError,
    Resampler, SampleKind, StreamRange, SyntheticSource, WavError,
};
use voice_commander::clock::Span;
use voice_commander::config::{DeviceSelector, LevelsConfig};
use voice_commander::session::{InputWarningKind, LevelSummary};
use voice_commander::single::{Single, Threshold};

fn bits(value: f32) -> Single {
    Single { bits: value.to_bits() }
}

fn value(single: Single) -> f32 {
    f32::from_bits(single.bits)
}

fn threshold(value: f32) -> Threshold {
    Threshold { value: bits(value), text: value.to_string() }
}

fn levels() -> LevelsConfig {
    LevelsConfig {
        silence_dbfs: threshold(-55.0),
        too_quiet_dbfs: threshold(-40.0),
        speech_dbfs: threshold(-45.0),
        silence_warn_after_ms: 1000,
    }
}

fn pattern(samples: &[f32]) -> Vec<u32> {
    samples.iter().map(|sample| sample.to_bits()).collect()
}

fn to_dbfs(amplitude: f32) -> f32 {
    let floor = f32::from_bits(SILENCE_FLOOR_DBFS);
    if amplitude <= 0.0 {
        floor
    } else {
        (20.0 * amplitude.log10()).max(floor)
    }
}

fn measure(meter: &LevelMeter, samples: &[f32]) -> LevelSnapshot {
    let squares: f64 = samples.iter().map(|s| f64::from(*s) * f64::from(*s)).sum();
    let rms = (squares / samples.len().max(1) as f64).sqrt() as f32;
    let peak = samples.iter().fold(0.0f32, |peak, s| peak.max(s.abs()));
    meter.measure(&pattern(samples), bits(to_dbfs(rms)), bits(to_dbfs(peak)))
}

/// A sine wave at a known amplitude: its RMS is amplitude / sqrt(2).
fn sine(amplitude: f32, samples: usize) -> Vec<f32> {
    (0..samples).map(|n| amplitude * (n as f32 * 0.1).sin()).collect()
}

// ── levels ──────────────────────────────────────────────────────────────────

#[test]
fn rms_of_a_sine_is_its_amplitude_over_root_two() {
    let meter = LevelMeter::new(levels());
    let snapshot = measure(&meter, &sine(0.5, 10_000));

    let expected = to_dbfs(0.5 / std::f32::consts::SQRT_2);
    assert!(
        (value(snapshot.rms_dbfs) - expected).abs() < 0.2,
        "got {} dBFS, expected about {expected}",
        value(snapshot.rms_dbfs)
    );
    assert!((value(snapshot.peak_dbfs) - to_dbfs(0.5)).abs() < 0.1);
}

#[test]
fn a_loud_block_counts_as_speech_and_a_quiet_one_does_not() {
    let meter = LevelMeter::new(levels());
    assert!(measure(&meter, &sine(0.3, 1_000)).speech);
    assert!(!measure(&meter, &sine(0.0005, 1_000)).speech);
}

#[test]
fn samples_at_full_scale_are_counted_as_clipped() {
    let meter = LevelMeter::new(levels());
    let mut block = sine(0.5, 1_000);
    block[10] = 1.0;
    block[20] = -1.2;

    let snapshot = measure(&meter, &block);
    assert!(snapshot.clipping);
    assert_eq!(snapshot.clipped_samples, 2);
}

#[test]
fn an_empty_block_is_silence_not_an_error() {
    let snapshot = measure(&LevelMeter::new(levels()), &[]);
    assert_eq!(snapshot.rms_dbfs.bits, SILENCE_FLOOR_DBFS);
    assert!(!snapshot.speech);
    assert!(!snapshot.clipping);
}

#[test]
fn silence_and_too_quiet_are_reported_as_different_problems() {
    let meter = LevelMeter::new(levels());

    let muted = measure(&meter, &vec![0.0; 1_000]);
    assert_eq!(meter.warning(&muted), Some(InputWarningKind::Silence));

    let distant = measure(&meter, &sine(0.006, 1_000));
    assert_eq!(meter.warning(&distant), Some(InputWarningKind::TooQuiet));

    let healthy = measure(&meter, &sine(0.3, 1_000));
    assert_eq!(meter.warning(&healthy), None);
}

#[test]
fn clipping_outranks_quietness() {
    let meter = LevelMeter::new(levels());
    let mut block = vec![0.0f32; 1_000];
    block[0] = 1.0;

    assert_eq!(meter.warning(&measure(&meter, &block)), Some(InputWarningKind::Clipping));
}

fn summarize(totals: &LevelTotals, mean_rms: f32) -> LevelSummary {
    totals.summarize(bits(to_dbfs(value(totals.peak))), bits(to_dbfs(mean_rms)))
}

#[test]
fn session_totals_accumulate_across_blocks() {
    let meter = LevelMeter::new(levels());
    let mut totals = LevelTotals::new(16_000, &levels());

    let speech = sine(0.3, 16_000);
    totals.add(&pattern(&speech), &measure(&meter, &speech));
    let quiet = vec![0.0f32; 16_000];
    totals.add(&pattern(&quiet), &measure(&meter, &quiet));

    let summary = summarize(&totals, 0.15);
    assert_eq!(summary.speech_ms, 1_000);
    assert_eq!(summary.silence_ms, 1_000);
    assert!((value(summary.peak_dbfs) - to_dbfs(0.3)).abs() < 0.1);
}

#[test]
fn a_session_with_no_audio_summarizes_without_dividing_by_zero() {
    let summary = summarize(&LevelTotals::new(16_000, &levels()), 0.0);
    assert_eq!(summary.speech_ms, 0);
    assert_eq!(summary.peak_dbfs.bits, SILENCE_FLOOR_DBFS);
    assert!(value(summary.mean_rms_dbfs).is_finite());
    assert_eq!(summarize(&LevelTotals::new(0, &levels()), 0.0).silence_ms, 0);
}

#[test]
fn a_recording_is_judged_on_its_totals_not_its_quietest_moment() {
    let summary = LevelSummary {
        peak_dbfs: bits(-11.8),
        mean_rms_dbfs: bits(-32.1),
        speech_ms: 2_800,
        silence_ms: 200,
        clipped_samples: 0,
    };
    assert_eq!(summary_warning(&summary, &levels()), None);
}

#[test]
fn a_genuinely_quiet_recording_is_still_reported() {
    let summary = LevelSummary {
        peak_dbfs: bits(-38.0),
        mean_rms_dbfs: bits(-52.0),
        speech_ms: 0,
        silence_ms: 3_000,
        clipped_samples: 0,
    };
    assert_eq!(summary_warning(&summary, &levels()), Some(InputWarningKind::TooQuiet));
}

#[test]
fn a_recording_that_never_rose_above_the_floor_is_silence_not_quietness() {
    let summary = LevelSummary {
        peak_dbfs: bits(-100.0),
        mean_rms_dbfs: bits(-100.0),
        speech_ms: 0,
        silence_ms: 3_000,
        clipped_samples: 0,
    };
    assert_eq!(summary_warning(&summary, &levels()), Some(InputWarningKind::Silence));
}

#[test]
fn the_summary_counts_the_same_clipping_the_meter_reported() {
    let meter = LevelMeter::new(levels());
    let mut totals = LevelTotals::new(16_000, &levels());
    let mut block = sine(0.5, 1_000);
    block[5] = 1.0;

    let snapshot = measure(&meter, &block);
    totals.add(&pattern(&block), &snapshot);

    assert_eq!(summarize(&totals, 0.3).clipped_samples, snapshot.clipped_samples);
}

#[test]
fn numbers_compare_by_value_and_not_by_pattern() {
    assert!(bits(-2.0).below(bits(-1.0)));
    assert!(bits(-1.0).below(bits(1.0)));
    assert!(!bits(-0.0).below(bits(0.0)), "both zeros are the same number");
    assert!(bits(-0.0).at_least(bits(0.0)));
    assert!(!bits(f32::NAN).below(bits(1.0)) && !bits(f32::NAN).at_least(bits(1.0)));
    assert!(bits(1.0).below(bits(f32::INFINITY)));
}

// ── lookback ────────────────────────────────────────────────────────────────

/// A ramp, so every sample is identifiable and an off-by-one is visible.
fn ramp(from: usize, count: usize) -> Vec<u32> {
    (from..from + count).map(|n| (n as f32).to_bits()).collect()
}

#[test]
fn an_unfilled_buffer_reports_only_what_it_has() {
    let mut buffer = PreRollBuffer::new(1000, 500); // 500 samples
    buffer.push(&ramp(0, 100));

    assert_eq!(buffer.available_samples(), 100);
    assert_eq!(buffer.available_ms(), 100);
    assert_eq!(buffer.take_last_ms(500), ramp(0, 100));
}

#[test]
fn the_oldest_audio_falls_out_of_the_window() {
    let mut buffer = PreRollBuffer::new(1000, 100); // 100 samples
    buffer.push(&ramp(0, 150));

    assert_eq!(buffer.available_samples(), 100);
    assert_eq!(buffer.take_last_ms(100), ramp(50, 100));
}

#[test]
fn samples_stay_in_order_across_the_wrap() {
    let mut buffer = PreRollBuffer::new(1000, 100);
    buffer.push(&ramp(0, 60));
    buffer.push(&ramp(60, 60)); // crosses the end of the ring

    assert_eq!(buffer.take_last_ms(100), ramp(20, 100));
}

#[test]
fn many_small_writes_match_one_large_one() {
    let mut small = PreRollBuffer::new(1000, 100);
    for n in 0..250 {
        small.push(&[(n as f32).to_bits()]);
    }
    let mut large = PreRollBuffer::new(1000, 100);
    large.push(&ramp(0, 250));

    assert_eq!(small.take_last_ms(100), large.take_last_ms(100));
}

#[test]
fn a_write_larger_than_the_window_keeps_only_its_tail() {
    let mut buffer = PreRollBuffer::new(1000, 100);
    buffer.push(&ramp(0, 1000));
    assert_eq!(buffer.take_last_ms(100), ramp(900, 100));
}

#[test]
fn a_partial_request_takes_from_the_newest_end() {
    let mut buffer = PreRollBuffer::new(1000, 100);
    buffer.push(&ramp(0, 100));
    assert_eq!(buffer.take_last_ms(30), ramp(70, 30));
}

#[test]
fn a_zero_length_window_is_valid_and_yields_nothing() {
    let mut buffer = PreRollBuffer::new(16_000, 0);
    buffer.push(&ramp(0, 1000));

    assert_eq!(buffer.capacity(), 0);
    assert_eq!(buffer.available_ms(), 0);
    assert!(buffer.take_last_ms(500).is_empty());
}

#[test]
fn clearing_discards_audio_from_before_a_device_change() {
    let mut buffer = PreRollBuffer::new(1000, 100);
    buffer.push(&ramp(0, 100));
    buffer.clear();

    assert_eq!(buffer.available_samples(), 0);
    assert!(buffer.take_last_ms(100).is_empty());

    buffer.push(&ramp(500, 10));
    assert_eq!(buffer.take_last_ms(100), ramp(500, 10));
}

#[test]
fn the_window_is_sized_from_the_sample_rate() {
    assert_eq!(PreRollBuffer::new(16_000, 500).capacity(), 8_000);
    assert_eq!(PreRollBuffer::new(48_000, 500).capacity(), 24_000);
    assert_eq!(PreRollBuffer::new(16_000, 1_000).capacity(), 16_000);
}

// ── the capture channel ─────────────────────────────────────────────────────

#[test]
fn samples_travel_from_a_backend_to_the_consumer_in_order() {
    let (mut sink, mut source) = channel(1024);
    let mut backend = SyntheticSource::new(16_000, ramp(0, 500));
    while let Some(block) = backend.next_block() {
        sink.write(&block);
    }

    let mut out = Vec::new();
    assert!(!source.is_empty());
    assert_eq!(source.drain(&mut out), 500);
    assert!(source.is_empty());
    assert_eq!(out.len(), 500);
    assert_eq!(out, ramp(0, 500));
}

#[test]
fn a_full_channel_drops_samples_and_counts_them_instead_of_blocking() {
    let (mut sink, source) = channel(16);
    sink.write(&pattern(&vec![1.0; 100]));

    assert_eq!(source.dropped(), 84);
}

#[test]
fn losses_add_up_and_what_follows_them_still_arrives_in_order() {
    let (mut sink, mut source) = channel(4);
    let mut out = Vec::new();
    sink.write(&ramp(0, 6));
    source.drain(&mut out);
    sink.write(&ramp(10, 3));
    source.drain(&mut out);
    sink.write(&ramp(20, 5));
    source.drain(&mut out);
    let mut expected = ramp(0, 4);
    expected.extend(ramp(10, 3));
    expected.extend(ramp(20, 4));
    assert_eq!(out, expected);
    assert_eq!(source.dropped(), 3);
}

#[test]
fn nothing_is_dropped_while_the_consumer_keeps_up() {
    let (mut sink, mut source) = channel(64);
    let mut out = Vec::new();
    for _ in 0..100 {
        sink.write(&pattern(&[0.5; 32]));
        source.drain(&mut out);
    }

    assert_eq!(source.dropped(), 0);
    assert_eq!(out.len(), 3_200);
}

#[test]
fn a_channel_for_nothing_still_holds_one_sample() {
    let (mut sink, mut source) = channel(0);
    sink.write(&ramp(7, 2));
    let mut out = vec![1];
    assert_eq!(source.drain(&mut out), 1);
    assert_eq!(out, vec![1, 7.0f32.to_bits()]);
    assert_eq!(source.dropped(), 1);
}

#[test]
fn block_size_does_not_change_what_arrives() {
    let expected = ramp(0, 1_000);

    for block in [1, 7, 64, 480, 2_048] {
        let (mut sink, mut source) = channel(4_096);
        let mut backend = SyntheticSource::new(16_000, expected.clone()).with_block(block);
        while let Some(block) = backend.next_block() {
            sink.write(&block);
        }

        let mut out = Vec::new();
        source.drain(&mut out);
        assert_eq!(out, expected, "block size {block} changed the output");
    }
}

#[test]
fn a_replay_can_repeat_and_keep_time() {
    let mut backend = SyntheticSource::new(8_000, ramp(0, 3))
        .with_block(2)
        .looping()
        .realtime()
        .named("loop".to_owned());
    assert_eq!(
        backend.info(),
        DeviceInfo { name: "loop".to_owned(), sample_rate: 8_000, channels: 1 }
    );
    assert_eq!(backend.next_block(), Some(ramp(0, 2)));
    assert_eq!(backend.next_block(), Some(ramp(2, 1)));
    assert_eq!(backend.next_block(), Some(ramp(0, 2)));
    assert_eq!(backend.pause_micros(8), 1_000);
    assert_eq!(SyntheticSource::new(8_000, vec![]).looping().next_block(), None);
    assert_eq!(SyntheticSource::new(8_000, vec![]).pause_micros(8), 0);
}

#[test]
fn device_errors_say_which_device_and_which_format() {
    let error = AudioError::NoDevice { requested: Some("Yeti".to_owned()) };
    assert!(error.to_text().contains("Yeti"), "{}", error.to_text());

    let error = AudioError::UnsupportedFormat {
        device: "Built-in".to_owned(),
        sample_rate: 16_000,
        channels: 1,
    };
    assert!(error.to_text().contains("16000"), "{}", error.to_text());
}

#[test]
fn audio_errors_read_as_sentences() {
    assert_eq!(
        AudioError::NoDevice { requested: None }.to_text(),
        "no capture device available"
    );
    assert_eq!(
        AudioError::NoDevice { requested: Some("a\"b".to_owned()) }.to_text(),
        "no capture device available matching \"a\\\"b\""
    );
    assert_eq!(AudioError::Stream("gone".to_owned()).to_text(), "capture stream failed: gone");
    assert_eq!(AudioError::Backend("alsa".to_owned()).to_text(), "audio backend: alsa");
    assert_eq!(
        WavError::Write { path: "/a".to_owned(), source: "full".to_owned() }.to_text(),
        "writing /a: full"
    );
    assert_eq!(
        WavError::Read { path: "/a".to_owned(), source: "gone".to_owned() }.to_text(),
        "reading /a: gone"
    );
    assert_eq!(
        ResampleError::Unsupported { from: 0, to: 16_000, source: "no".to_owned() }.to_text(),
        "cannot resample from 0 Hz to 16000 Hz: no"
    );
    assert_eq!(ResampleError::Failed("no".to_owned()).to_text(), "resampling failed: no");
}

// ── which device, in which configuration ────────────────────────────────────

#[test]
fn a_selector_that_matches_nothing_says_what_was_asked_for() {
    let selector = DeviceSelector::Match("no-such-device-exists-anywhere".to_owned());
    let error = find(&selector, true, &vec!["Built-in".to_owned()]).expect_err("should not match");
    assert!(
        error.to_text().contains("no-such-device-exists-anywhere")
            || matches!(error, AudioError::Backend(_)),
        "{}",
        error.to_text()
    );
}

#[test]
fn the_first_matching_device_is_taken() {
    let names = vec!["Built-in".to_owned(), "Blue Yeti".to_owned(), "yeti nano".to_owned()];
    let selector = DeviceSelector::Match("YETI".to_owned());
    assert_eq!(find(&selector, false, &names), Ok(Found::Listed(1)));
    assert_eq!(find(&DeviceSelector::Default, true, &names), Ok(Found::Default));
    assert_eq!(
        find(&DeviceSelector::Default, false, &names),
        Err(AudioError::NoDevice { requested: None })
    );
}

fn range(channels: u16, kind: SampleKind) -> StreamRange {
    StreamRange { channels, min_sample_rate: 8_000, max_sample_rate: 48_000, kind }
}

#[test]
fn mono_and_wide_samples_are_preferred() {
    let offered = vec![
        range(1, SampleKind::Narrow),
        range(32, SampleKind::Float),
        range(1, SampleKind::Float),
        range(2, SampleKind::Float),
    ];
    assert_eq!(choose_config(&offered, 16_000), Some(2));
    assert_eq!(choose_config(&offered, 96_000), None, "no configuration runs at that rate");
    assert_eq!(
        choose_config(&vec![range(32, SampleKind::Float)], 16_000),
        None,
        "thirty-two channels are worse than the device's default"
    );
    assert_eq!(
        choose_config(&vec![range(2, SampleKind::Wide), range(2, SampleKind::Wide)], 16_000),
        Some(1),
        "the last of equals"
    );
}

// ── checking the microphone ─────────────────────────────────────────────────

fn mic_report(warning: Option<InputWarningKind>) -> MicReport {
    MicReport {
        device: DeviceInfo { name: "test".to_owned(), sample_rate: 16_000, channels: 1 },
        duration: Span { seconds: 3, nanos: 0 },
        peak_dbfs: bits(-12.0),
        mean_rms_dbfs: bits(-30.0),
        speech_ms: 2_000,
        silence_ms: 1_000,
        clipped_samples: 0,
        dropped_samples: 0,
        warning,
    }
}

fn verdict(report: &MicReport) -> String {
    report.verdict(
        &format!("{:.0}", value(report.mean_rms_dbfs)),
        &format!("{:.0}", value(report.peak_dbfs)),
    )
}

#[test]
fn a_silent_microphone_is_told_to_check_the_mute() {
    let verdict = verdict(&mic_report(Some(InputWarningKind::Silence)));
    assert!(verdict.contains("unmuted"), "{verdict}");
    assert!(verdict.contains("wpctl"), "should give a command to run: {verdict}");
}

#[test]
fn a_quiet_microphone_is_told_how_to_raise_the_gain() {
    let verdict = verdict(&mic_report(Some(InputWarningKind::TooQuiet)));
    assert!(verdict.contains("set-volume"), "{verdict}");
}

#[test]
fn a_healthy_microphone_says_so_with_numbers() {
    let verdict = verdict(&mic_report(None));
    assert!(verdict.contains("good"), "{verdict}");
    assert!(verdict.contains("-30"), "should show the level: {verdict}");
}

#[test]
fn other_problems_are_named() {
    let mut loud = mic_report(Some(InputWarningKind::Clipping));
    loud.clipped_samples = 12;
    assert!(verdict(&loud).starts_with("12 samples hit full scale"));
    assert_eq!(
        verdict(&mic_report(Some(InputWarningKind::Xrun))),
        "input problem: Xrun"
    );
}

#[test]
fn a_check_reports_the_totals_or_that_the_stream_failed() {
    let device = || DeviceInfo { name: "mic".to_owned(), sample_rate: 16_000, channels: 1 };
    let mut totals = LevelTotals::new(16_000, &levels());
    let speech = sine(0.3, 16_000);
    let snapshot = measure(&LevelMeter::new(levels()), &speech);
    totals.add(&pattern(&speech), &snapshot);
    let span = Span::from_secs(1);

    let found = report(device(), span, &totals, bits(-10.0), bits(-14.0), 3, false, &levels())
        .expect("the stream worked");
    assert_eq!(found.speech_ms, 1_000);
    assert_eq!(found.dropped_samples, 3);
    assert_eq!(found.warning, None);

    let failed = report(device(), span, &totals, bits(-10.0), bits(-14.0), 0, true, &levels());
    assert_eq!(
        failed,
        Err(AudioError::Stream("the capture stream failed while testing".to_owned()))
    );
}

// ── rate conversion ─────────────────────────────────────────────────────────

/// The bookkeeping together with the filter it is for.
struct Converter {
    filter: Option<rubato::FftFixedIn<f32>>,
    books: Resampler,
}

impl Converter {
    fn new(from: u32, to: u32) -> Self {
        if from == to {
            return Converter { filter: None, books: Resampler::new(from, to, 0) };
        }
        let filter = rubato::FftFixedIn::<f32>::new(
            from as usize,
            to as usize,
            chunk_size(from),
            2,
            1,
        )
        .expect("constructs");
        let delay = filter.output_delay();
        Converter { filter: Some(filter), books: Resampler::new(from, to, delay) }
    }

    fn process(&mut self, chunk: Vec<u32>, out: &mut Vec<u32>) {
        let filter = self.filter.as_mut().expect("a filter");
        let floats: Vec<f32> = chunk.iter().map(|bits| f32::from_bits(*bits)).collect();
        let converted = filter.process(&[floats], None).expect("process");
        self.books.absorb(&pattern(&converted[0]), out);
    }

    fn push(&mut self, samples: &[f32]) -> Vec<f32> {
        let mut out = self.books.push(&pattern(samples));
        if !self.books.is_pass_through() {
            while let Some(chunk) = self.books.next_chunk() {
                self.process(chunk, &mut out);
            }
        }
        out.iter().map(|bits| f32::from_bits(*bits)).collect()
    }

    fn flush(&mut self) -> Vec<f32> {
        let mut out = Vec::new();
        let mut fed = 0;
        loop {
            match self.books.flush(fed) {
                Flush::Tail(chunk) => self.process(chunk, &mut out),
                Flush::Silence(chunk) => {
                    fed += 1;
                    self.process(chunk, &mut out);
                }
                Flush::Settled => break,
            }
        }
        if !self.books.is_pass_through() {
            self.books.settle(&mut out);
        }
        out.iter().map(|bits| f32::from_bits(*bits)).collect()
    }
}

fn wave(frequency: f32, rate: u32, samples: usize) -> Vec<f32> {
    (0..samples)
        .map(|n| (2.0 * std::f32::consts::PI * frequency * n as f32 / rate as f32).sin() * 0.5)
        .collect()
}

/// Estimate a tone's frequency by counting zero crossings.
fn estimate_frequency(samples: &[f32], rate: u32) -> f32 {
    let crossings = samples.windows(2).filter(|pair| (pair[0] < 0.0) != (pair[1] < 0.0)).count();
    crossings as f32 * rate as f32 / (2.0 * samples.len() as f32)
}

#[test]
fn matching_rates_pass_through_untouched() {
    let mut resampler = Converter::new(16_000, 16_000);
    assert!(resampler.books.is_pass_through());

    let input = wave(440.0, 16_000, 1_000);
    assert_eq!(resampler.push(&input), input);
    assert!(resampler.flush().is_empty());
}

#[test]
fn downsampling_preserves_the_tone() {
    let mut resampler = Converter::new(48_000, 16_000);
    let mut out = resampler.push(&wave(1_000.0, 48_000, 48_000));
    out.extend(resampler.flush());

    let measured = estimate_frequency(&out[1_000..out.len() - 1_000], 16_000);
    assert!((measured - 1_000.0).abs() < 30.0, "1 kHz became {measured} Hz after downsampling");
}

#[test]
fn the_output_length_is_exact_not_approximate() {
    for (from, to, input) in [
        (48_000u32, 16_000u32, 48_000usize),
        (44_100, 16_000, 44_100),
        (8_000, 16_000, 8_000),
        (16_000, 48_000, 16_000),
    ] {
        let mut resampler = Converter::new(from, to);
        let mut out = resampler.push(&wave(440.0, from, input));
        out.extend(resampler.flush());

        let expected = input * to as usize / from as usize;
        assert_eq!(
            out.len(),
            expected,
            "{from} Hz to {to} Hz: {input} samples in produced {} out, expected {expected}",
            out.len()
        );
    }
}

#[test]
fn the_output_starts_where_the_input_does() {
    let mut resampler = Converter::new(44_100, 16_000);
    let mut out = resampler.push(&wave(1_000.0, 44_100, 44_100));
    out.extend(resampler.flush());

    let opening = &out[..80];
    let peak = opening.iter().fold(0.0f32, |peak, s| peak.max(s.abs()));
    assert!(
        peak > 0.1,
        "the recording opens with {peak} peak amplitude: the delay was not compensated"
    );
}

#[test]
fn upsampling_preserves_the_tone() {
    let mut resampler = Converter::new(8_000, 16_000);
    let mut out = resampler.push(&wave(300.0, 8_000, 8_000));
    out.extend(resampler.flush());

    let measured = estimate_frequency(&out[1_000..out.len() - 1_000], 16_000);
    assert!((measured - 300.0).abs() < 15.0, "300 Hz became {measured} Hz");
}

#[test]
fn a_non_integer_ratio_is_handled() {
    let mut resampler = Converter::new(44_100, 16_000);
    let mut out = resampler.push(&wave(1_000.0, 44_100, 44_100));
    out.extend(resampler.flush());

    let measured = estimate_frequency(&out[1_000..out.len() - 1_000], 16_000);
    assert!((measured - 1_000.0).abs() < 30.0, "got {measured} Hz");
}

#[test]
fn arbitrary_buffer_sizes_give_the_same_result_as_one_large_one() {
    let input = wave(500.0, 48_000, 24_000);

    let mut whole = Converter::new(48_000, 16_000);
    let mut expected = whole.push(&input);
    expected.extend(whole.flush());

    let mut piecemeal = Converter::new(48_000, 16_000);
    let mut actual = Vec::new();
    for chunk in input.chunks(377) {
        actual.extend(piecemeal.push(chunk));
    }
    actual.extend(piecemeal.flush());

    assert_eq!(actual.len(), expected.len());
    for (a, b) in actual.iter().zip(expected.iter()) {
        assert!((a - b).abs() < 1e-5, "{a} != {b}");
    }
}

#[test]
fn flushing_recovers_the_tail_that_never_filled_a_chunk() {
    let mut resampler = Converter::new(48_000, 16_000);
    let pushed = resampler.push(&wave(440.0, 48_000, 100));
    assert!(pushed.is_empty(), "100 samples cannot fill a chunk");

    assert!(!resampler.flush().is_empty(), "the tail was dropped");
}
