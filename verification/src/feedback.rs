//! Which events reach anyone, and who they reach.
//!
//! `feedback.listening` and `feedback.processing` are independent switches over two distinct
//! groups of events: the ones that drive an indicator while the user is speaking, and the
//! ones that drive a progress panel while callbacks run. Turning one off suppresses those
//! events at the source rather than filtering them downstream.
//!
//! Everything outside those two groups always flows: daemon lifecycle and errors. Disabling
//! both indicators must not become a way to hide a failure.

use vstd::prelude::*;

use crate::config::FeedbackConfig;
use crate::event::{Event, EventView};

verus! {

/// Decides whether an event is worth emitting at all.
#[derive(Debug, Clone, Copy, PartialEq, Eq, Structural)]
pub struct Filter {
    pub enabled: bool,
    pub listening: bool,
    pub processing: bool,
}

impl Filter {
    /// The filter a configuration asks for.
    pub open spec fn of(config: FeedbackConfig) -> Filter {
        Filter {
            enabled: config.enabled,
            listening: config.listening,
            processing: config.processing,
        }
    }

    /// Whether an event gets through.
    pub open spec fn passes(self, event: EventView) -> bool {
        if event.is_listening() {
            self.enabled && self.listening
        } else if event.is_processing() {
            self.enabled && self.processing
        } else {
            true
        }
    }

    pub fn new(config: &FeedbackConfig) -> (result: Self)
        ensures
            result == Filter::of(*config),
    {
        Filter {
            enabled: config.enabled,
            listening: config.listening,
            processing: config.processing,
        }
    }

    /// Everything on, for the paths that have no configuration to consult.
    pub fn permissive() -> (result: Self)
        ensures
            forall|event: EventView| #[trigger] result.passes(event),
            result.enabled && result.listening && result.processing,
    {
        Filter { enabled: true, listening: true, processing: true }
    }

    pub fn allows(self, event: &Event) -> (result: bool)
        ensures
            result == self.passes(event@),
    {
        if event.is_listening_feedback() {
            return self.enabled && self.listening;
        }
        if event.is_processing_feedback() {
            return self.enabled && self.processing;
        }
        true
    }
}

/// The two indicators are switched independently: neither switch changes what happens to the
/// events of the other indicator.
pub proof fn law_the_switches_are_independent(filter: Filter, event: EventView, on: bool)
    ensures
        !event.is_listening() ==> (Filter { listening: on, ..filter }).passes(event)
            == filter.passes(event),
        !event.is_processing() ==> (Filter { processing: on, ..filter }).passes(event)
            == filter.passes(event),
        filter.enabled && event.is_listening() ==> filter.passes(event) == filter.listening,
        filter.enabled && event.is_processing() ==> filter.passes(event) == filter.processing,
{
}

/// With the master switch off, neither indicator gets an event.
pub proof fn law_the_master_switch_covers_both(filter: Filter, event: EventView)
    requires
        !filter.enabled,
    ensures
        event.is_listening() || event.is_processing() ==> !filter.passes(event),
{
}

/// Lifecycle events, cancellations and errors are never suppressed.
pub proof fn law_failures_are_never_suppressed(filter: Filter, event: EventView)
    requires
        event is Error || event is DaemonReady || event is ConfigReloaded || event is DeviceOpened
            || event is DeviceClosed || event is SessionCancelled,
    ensures
        filter.passes(event),
{
}

/// Each switch governs the events of its own indicator: what happens while listening, what
/// happens while processing, and neither for what concerns the daemon, its device, a
/// cancelled session or an error.
pub proof fn law_each_indicator_has_its_switch(filter: Filter, event: EventView)
    ensures
        filter.passes(event) == (match event {
            EventView::RecordingStarted { .. } => filter.enabled && filter.listening,
            EventView::RecordingResumed { .. } => filter.enabled && filter.listening,
            EventView::RecordingStopped { .. } => filter.enabled && filter.listening,
            EventView::CooldownStarted { .. } => filter.enabled && filter.listening,
            EventView::SessionFinalized { .. } => filter.enabled && filter.listening,
            EventView::Level { .. } => filter.enabled && filter.listening,
            EventView::InputWarning { .. } => filter.enabled && filter.listening,
            EventView::PipelineStarted { .. } => filter.enabled && filter.processing,
            EventView::TranscribeStarted { .. } => filter.enabled && filter.processing,
            EventView::TranscribeDone { .. } => filter.enabled && filter.processing,
            EventView::TranscribeFailed { .. } => filter.enabled && filter.processing,
            EventView::SinkStarted { .. } => filter.enabled && filter.processing,
            EventView::SinkFinished { .. } => filter.enabled && filter.processing,
            EventView::PipelineFinished { .. } => filter.enabled && filter.processing,
            EventView::DaemonReady { .. } => true,
            EventView::ConfigReloaded { .. } => true,
            EventView::DeviceOpened { .. } => true,
            EventView::DeviceClosed { .. } => true,
            EventView::SessionCancelled { .. } => true,
            EventView::Error { .. } => true,
        }),
{
}

/// A filter has the switches that are configured.
pub proof fn law_a_filter_has_the_configured_switches(config: FeedbackConfig)
    ensures
        Filter::of(config).enabled == config.enabled,
        Filter::of(config).listening == config.listening,
        Filter::of(config).processing == config.processing,
{
}

} // verus!
