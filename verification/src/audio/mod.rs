//! Captured audio: where it comes from, the rolling window before a keypress, and how loud it
//! all was.
//!
//! A sample is a single-precision number. It is carried as its bit pattern, see
//! [`crate::single`]; digital silence is the pattern zero.

pub mod devices;
pub mod level;
pub mod mictest;
pub mod preroll;
pub mod resample;
pub mod source;
pub mod synthetic;
pub mod wav;

pub use devices::{choose_config, Found, SampleKind, StreamRange};
pub use level::{LevelMeter, LevelSnapshot, LevelTotals};
pub use mictest::MicReport;
pub use preroll::PreRollBuffer;
pub use resample::{ResampleError, Resampler};
pub use source::{channel, AudioError, AudioHost, AudioSource, DeviceInfo, SampleSink, SampleSource};
pub use synthetic::SyntheticSource;
pub use wav::WavError;
