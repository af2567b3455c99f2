//! How the microphone behaves before, during and after a recording.

use vstd::prelude::*;

use crate::text::{contains_text, lowercase, same_text};

verus! {

/// What the daemon does with the audio device between recordings.
///
/// This is the latency-versus-power tradeoff, and it is deliberately the user's to make.
#[derive(Debug, Clone, Copy, PartialEq, Eq, Structural)]
pub enum CaptureMode {
    /// Keep the stream open and retain a rolling window of recent audio, so a recording can
    /// begin *before* the moment the key was pressed.
    Preroll,
    /// Keep the stream open but discard everything until a recording starts.
    Warm,
    /// Open the device when a recording starts and close it when the recording ends.
    OnDemand,
}

impl CaptureMode {
    /// Whether this mode holds the device open while idle.
    pub fn keeps_device_open(self) -> (result: bool)
        ensures
            result == (self != CaptureMode::OnDemand),
    {
        match self {
            CaptureMode::Preroll | CaptureMode::Warm => true,
            CaptureMode::OnDemand => false,
        }
    }
}

/// Which input device to capture from.
#[derive(Debug, PartialEq, Eq)]
pub enum DeviceSelector {
    /// Follow whatever the system default input is, including when it changes.
    Default,
    /// Use the first device whose name contains this (case-insensitive) substring.
    Match(String),
}

impl Default for DeviceSelector {
    fn default() -> (result: Self)
        ensures
            result == DeviceSelector::Default,
    {
        DeviceSelector::Default
    }
}

impl Clone for DeviceSelector {
    fn clone(&self) -> (result: Self)
        ensures
            result == *self,
    {
        match self {
            DeviceSelector::Default => DeviceSelector::Default,
            DeviceSelector::Match(needle) => DeviceSelector::Match(needle.clone()),
        }
    }
}

impl DeviceSelector {
    /// What a selector is written as.
    pub open spec fn written(self) -> Seq<char> {
        match self {
            DeviceSelector::Default => "default"@,
            DeviceSelector::Match(needle) => needle@,
        }
    }

    /// The selector that a text stands for.
    pub fn from_text(raw: String) -> (result: Self)
        ensures
            result == (if raw@ == "default"@ {
                DeviceSelector::Default
            } else {
                DeviceSelector::Match(raw)
            }),
            result.written() == raw@,
    {
        if same_text(raw.as_str(), "default") {
            DeviceSelector::Default
        } else {
            DeviceSelector::Match(raw)
        }
    }

    /// What the selector is written as.
    pub fn as_text(&self) -> (result: &str)
        ensures
            result@ == self.written(),
    {
        match self {
            DeviceSelector::Default => "default",
            DeviceSelector::Match(needle) => needle.as_str(),
        }
    }

    /// Whether `name` satisfies this selector. `Default` matches nothing on its own; the
    /// caller resolves it through the host's default-device lookup instead.
    pub fn matches(&self, name: &str) -> (result: bool)
        ensures
            result == (match self {
                DeviceSelector::Default => false,
                DeviceSelector::Match(needle) => crate::text::occurs(
                    crate::text::lowercased(name@),
                    crate::text::lowercased(needle@),
                ),
            }),
    {
        match self {
            DeviceSelector::Default => false,
            DeviceSelector::Match(needle) => {
                contains_text(lowercase(name).as_str(), lowercase(needle.as_str()).as_str())
            },
        }
    }
}

/// Fully resolved capture settings for one profile.
///
/// Every field is concrete: the loader merges `[defaults.capture]` with any per-profile
/// override first, so nothing downstream deals in `Option`.
#[derive(Debug, PartialEq, Eq)]
pub struct CaptureConfig {
    pub mode: CaptureMode,
    /// How much audio from before the keypress to include, in `Preroll` mode.
    pub pre_roll_ms: u32,
    /// Close the device after this many seconds with no recording. `0` never closes it.
    /// Only meaningful in modes that hold the device open.
    pub idle_release_secs: u32,
    pub device: DeviceSelector,
}

impl Clone for CaptureConfig {
    fn clone(&self) -> (result: Self)
        ensures
            result == *self,
    {
        CaptureConfig {
            mode: self.mode,
            pre_roll_ms: self.pre_roll_ms,
            idle_release_secs: self.idle_release_secs,
            device: self.device.clone(),
        }
    }
}

} // verus!
