//! The configuration that ships with the tool.

use vstd::prelude::*;

verus! {

/// The baseline every configuration is layered on top of.
///
/// Shipping this compiled in means a fresh install works before the user has written
/// anything, and that every key has exactly one documented default. It records, keeps the
/// recording, and needs neither an API key nor an external tool; everything beyond that is
/// opt-in.
pub const EMBEDDED_DEFAULT: &'static str = "[daemon]
autostart = false
log_level = \"info\"

[audio]
sample_rate = 16000
channels = 1
format = \"wav\"

[levels]
silence_dbfs = -55.0
too_quiet_dbfs = -40.0
speech_dbfs = -45.0
silence_warn_after_ms = 1000

[storage]
max_age_days = 0
max_total_bytes = 0
keep_audio_after_transcribe = true

[feedback]
enabled = true
listening = true
processing = true
processing_linger_ms = 1500
level_interval_ms = 50
presenters = [\"socket\"]

[presenters.socket]
type = \"socket\"

[defaults.capture]
mode = \"preroll\"
pre_roll_ms = 500
idle_release_secs = 300
device = \"default\"

[defaults.session]
cooldown_ms = 1500
max_recording_secs = 120
max_total_secs = 600

[defaults.continuation]
gap = \"keep\"
silence_ms = 300
max_segments = 5

[profiles.default]
trigger = \"push_to_talk\"
transcriber = false
sinks = []
";

/// A heavily commented starting point, written out by `voice-commander config init`.
pub const EXAMPLE_CONFIG: &'static str = "# voice-commander configuration.
#
# Everything here is optional: the built-in defaults already record, and keep what they
# record. A profile only states what it does differently.

# A local model, run as a command. Tokens such as {audio_path} are substituted per argument.
[transcribers.local]
type = \"command\"
cmd = [\"whisper-cli\", \"--no-timestamps\", \"-f\", \"{audio_path}\"]
text = { from = \"stdout\" }

# Anything that speaks the shape most providers copied. The key is never written here.
[transcribers.cloud]
type = \"openai\"
api_key = { env = \"OPENAI_API_KEY\" }
language = \"en\"

# Callbacks: where a finished recording goes.
[sinks.type]
type = \"type\"

[sinks.clipboard]
type = \"clipboard\"

[sinks.journal]
type = \"file\"
path = \"~/notes/{date}.md\"
template = \"- {text}\\n\"

[sinks.archive]
type = \"command\"
cmd = [\"~/bin/archive-memo\", \"{audio_path}\"]

# Hold to dictate into the focused window.
[profiles.dictate]
transcriber = \"local\"
sinks = [\"type\", \"clipboard\"]

# No transcription at all: the recording goes straight to a script.
[profiles.memo]
transcriber = false
sinks = [\"archive\"]

# Press once to start and once to stop, for something longer than a sentence.
[profiles.meeting]
trigger = \"toggle\"
transcriber = \"cloud\"
sinks = [\"journal\"]

[profiles.meeting.session]
max_recording_secs = 3600
max_total_secs = 7200
";

} // verus!
