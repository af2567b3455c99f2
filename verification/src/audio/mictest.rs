//! Checking the microphone before blaming anything else.
//!
//! The single most common cause of an empty recording is a muted or wrong input, and without
//! this the user's first evidence is a transcript that says nothing. A few seconds are
//! recorded and reported on, in terms that point at an action.

use vstd::prelude::*;

use super::level::{summary_warning, LevelTotals};
use super::source::{AudioError, DeviceInfo};
use crate::clock::Span;
use crate::config::LevelsConfig;
use crate::presenters::name_warning;
use crate::session::InputWarningKind;
use crate::single::Single;
use crate::text::{concat, concat3, decimal_text};

verus! {

/// What a microphone check found.
#[derive(Debug, Clone, PartialEq, Eq)]
pub struct MicReport {
    pub device: DeviceInfo,
    pub duration: Span,
    pub peak_dbfs: Single,
    pub mean_rms_dbfs: Single,
    pub speech_ms: u64,
    pub silence_ms: u64,
    pub clipped_samples: u64,
    /// Samples lost because the consumer could not keep up.
    pub dropped_samples: u64,
    pub warning: Option<InputWarningKind>,
}

/// A verdict in the terms a user can act on; `average` and `peak` are the levels rounded to
/// whole decibels.
pub open spec fn verdict_text(report: MicReport, average: Seq<char>, peak: Seq<char>) -> Seq<char> {
    match report.warning {
        Some(InputWarningKind::Silence) =>
            "nothing reached the microphone — check that it is unmuted and that the right input is selected (`wpctl status`)"@,
        Some(InputWarningKind::TooQuiet) => "audio arrived but is quiet ("@ + average
            + " dBFS average) — move closer, or raise the input volume with `wpctl set-volume @DEFAULT_AUDIO_SOURCE@ 1.2`"@,
        Some(InputWarningKind::Clipping) => crate::text::decimal(report.clipped_samples as nat)
            + " samples hit full scale — lower the input volume, or the loud parts will be distorted"@,
        Some(other) => "input problem: "@ + crate::presenters::warning_name(other),
        None => "microphone looks good — "@ + average + " dBFS average, "@ + peak + " dBFS peak"@,
    }
}

impl MicReport {
    /// A verdict in the terms a user can act on; `average` and `peak` are the levels rounded
    /// to whole decibels.
    pub fn verdict(&self, average: &str, peak: &str) -> (result: String)
        ensures
            result@ == verdict_text(*self, average@, peak@),
    {
        match self.warning {
            Some(InputWarningKind::Silence) => {
                "nothing reached the microphone — check that it is unmuted and that the right input is selected (`wpctl status`)".to_owned()
            },
            Some(InputWarningKind::TooQuiet) => concat3(
                "audio arrived but is quiet (",
                average,
                " dBFS average) — move closer, or raise the input volume with `wpctl set-volume @DEFAULT_AUDIO_SOURCE@ 1.2`",
            ),
            Some(InputWarningKind::Clipping) => concat(
                decimal_text(self.clipped_samples).as_str(),
                " samples hit full scale — lower the input volume, or the loud parts will be distorted",
            ),
            Some(other) => concat("input problem: ", name_warning(other)),
            None => {
                let mut out = concat3("microphone looks good — ", average, " dBFS average, ");
                out.append(peak);
                out.append(" dBFS peak");
                out
            },
        }
    }
}

/// What a microphone check found: the totals of what was recorded, or that the stream failed
/// on the way.
///
/// Judged on the whole recording rather than on its quietest block: the pauses between words
/// are quiet by definition, and condemning a healthy microphone for having them sends the
/// user chasing a problem that is not there.
pub fn report(
    device: DeviceInfo,
    duration: Span,
    totals: &LevelTotals,
    peak_dbfs: Single,
    mean_rms_dbfs: Single,
    dropped_samples: u64,
    failed: bool,
    levels: &LevelsConfig,
) -> (result: Result<MicReport, AudioError>)
    requires
        totals.wf(),
    ensures
        if failed {
            result matches Err(AudioError::Stream(reason)) && reason@
                == "the capture stream failed while testing"@
        } else {
            result == Ok::<MicReport, AudioError>(
                MicReport {
                    device,
                    duration,
                    peak_dbfs,
                    mean_rms_dbfs,
                    speech_ms: super::level::millis_of(
                        totals.speech_samples as int,
                        totals.sample_rate,
                    ) as u64,
                    silence_ms: super::level::millis_of(
                        totals.silence_samples as int,
                        totals.sample_rate,
                    ) as u64,
                    clipped_samples: totals.clipped_samples,
                    dropped_samples,
                    warning: super::level::warning_for(
                        totals.clipped_samples > 0,
                        peak_dbfs,
                        mean_rms_dbfs,
                        *levels,
                    ),
                },
            )
        },
{
    if failed {
        return Err(AudioError::Stream("the capture stream failed while testing".to_owned()));
    }
    let summary = totals.summarize(peak_dbfs, mean_rms_dbfs);
    Ok(
        MicReport {
            device,
            duration,
            peak_dbfs: summary.peak_dbfs,
            mean_rms_dbfs: summary.mean_rms_dbfs,
            speech_ms: summary.speech_ms,
            silence_ms: summary.silence_ms,
            clipped_samples: summary.clipped_samples,
            dropped_samples,
            warning: summary_warning(&summary, levels),
        },
    )
}

} // verus!
