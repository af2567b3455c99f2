//! Which device to open, and in which configuration.
//!
//! The backend enumerates devices and what they offer; what is picked out of that is decided
//! here.

use vstd::prelude::*;

use super::source::AudioError;
use crate::config::DeviceSelector;

verus! {

/// Where a device was found.
#[derive(Debug, Clone, Copy, PartialEq, Eq, Structural)]
pub enum Found {
    /// The system's default input.
    Default,
    /// The input at this position among those the host lists.
    Listed(usize),
}

/// Whether the input at `i` satisfies the selector.
pub open spec fn satisfies(needle: Seq<char>, names: Seq<String>, i: int) -> bool {
    crate::text::occurs(crate::text::lowercased(names[i]@), crate::text::lowercased(needle))
}

/// Which device a selector means, given whether the host has a default input and the names
/// of the inputs it lists.
///
/// The first listed input that matches wins. A selector that nothing satisfies is answered
/// with what was asked for.
pub fn find(selector: &DeviceSelector, has_default: bool, names: &Vec<String>) -> (result: Result<
    Found,
    AudioError,
>)
    ensures
        match selector {
            DeviceSelector::Default => match result {
                Ok(found) => has_default && found == Found::Default,
                Err(error) => !has_default && error == (AudioError::NoDevice { requested: None }),
            },
            DeviceSelector::Match(needle) => match result {
                Ok(found) => match found {
                    Found::Default => false,
                    Found::Listed(i) => {
                        &&& i < names@.len()
                        &&& satisfies(needle@, names@, i as int)
                        &&& forall|j: int| 0 <= j < i ==> !satisfies(needle@, names@, j)
                    },
                },
                Err(error) => {
                    &&& error == (AudioError::NoDevice { requested: Some(*needle) })
                    &&& forall|j: int| 0 <= j < names@.len() ==> !satisfies(needle@, names@, j)
                },
            },
        },
{
    match selector {
        DeviceSelector::Default => {
            if has_default {
                Ok(Found::Default)
            } else {
                Err(AudioError::NoDevice { requested: None })
            }
        },
        DeviceSelector::Match(needle) => {
            let mut i: usize = 0;
            while i < names.len()
                invariant
                    i <= names.len(),
                    *selector == DeviceSelector::Match(*needle),
                    forall|j: int| 0 <= j < i ==> !satisfies(needle@, names@, j),
                decreases names.len() - i,
            {
                if selector.matches(names[i].as_str()) {
                    return Ok(Found::Listed(i));
                }
                i += 1;
            }
            Err(AudioError::NoDevice { requested: Some(needle.clone()) })
        },
    }
}

/// How a device encodes its samples, as far as that matters for choosing.
#[derive(Debug, Clone, Copy, PartialEq, Eq, Structural)]
pub enum SampleKind {
    /// Floating point, of either width.
    Float,
    /// 32-bit integers.
    Wide,
    /// 16-bit integers.
    Medium,
    /// 8-bit integers.
    Narrow,
    /// Anything else.
    Other,
}

/// One configuration a device offers.
#[derive(Debug, Clone, Copy, PartialEq, Eq, Structural)]
pub struct StreamRange {
    pub channels: u16,
    pub min_sample_rate: u32,
    pub max_sample_rate: u32,
    pub kind: SampleKind,
}

/// How much one channel count is preferred over another.
///
/// Speech is mono, and asking for mono means the sound server does the downmix. Beyond two
/// channels nothing is worth opening: 32 channels of a one-channel microphone is 31 channels
/// of nothing dragging the downmixed average to zero.
pub open spec fn channel_rank(channels: u16) -> int {
    if channels == 1 {
        3
    } else if channels == 2 {
        2
    } else {
        0
    }
}

/// How much one sample format is preferred over another: the wider the better.
pub open spec fn format_rank(kind: SampleKind) -> int {
    match kind {
        SampleKind::Float => 5,
        SampleKind::Wide => 4,
        SampleKind::Medium => 3,
        SampleKind::Narrow => 1,
        SampleKind::Other => 0,
    }
}

fn channel_score(channels: u16) -> (result: u8)
    ensures
        result == channel_rank(channels),
{
    match channels {
        1 => 3,
        2 => 2,
        _ => 0,
    }
}

fn format_score(kind: SampleKind) -> (result: u8)
    ensures
        result == format_rank(kind),
{
    match kind {
        SampleKind::Float => 5,
        SampleKind::Wide => 4,
        SampleKind::Medium => 3,
        SampleKind::Narrow => 1,
        SampleKind::Other => 0,
    }
}

/// Whether a configuration can run at the wanted rate.
pub open spec fn covers(range: StreamRange, wanted_rate: u32) -> bool {
    range.min_sample_rate <= wanted_rate <= range.max_sample_rate
}

/// Whether `b` is at least as good as `a`: the channel count decides, then the format. A
/// configuration with the right format but 32 channels is worse than one with a modest
/// format and one channel.
pub open spec fn no_worse(a: StreamRange, b: StreamRange) -> bool {
    ||| channel_rank(a.channels) < channel_rank(b.channels)
    ||| channel_rank(a.channels) == channel_rank(b.channels) && format_rank(a.kind) <= format_rank(
        b.kind,
    )
}

/// Whether `best` is the position of the best configuration among the first `n` that cover
/// the wanted rate, the last of equals.
pub open spec fn is_best(ranges: Seq<StreamRange>, n: int, wanted_rate: u32, best: int) -> bool {
    &&& 0 <= best < n
    &&& covers(ranges[best], wanted_rate)
    &&& forall|j: int|
        #![trigger ranges[j]]
        0 <= j < n && covers(ranges[j], wanted_rate) ==> no_worse(ranges[j], ranges[best]) && (j
            > best ==> !no_worse(ranges[best], ranges[j]))
}

/// Pick a stream configuration that runs at the requested rate, so that nothing has to be
/// resampled: the best one, by its position, or none when the device's default has to do.
pub fn choose_config(ranges: &Vec<StreamRange>, wanted_rate: u32) -> (result: Option<usize>)
    ensures
        match result {
            Some(best) => is_best(ranges@, ranges@.len() as int, wanted_rate, best as int)
                && channel_rank(ranges@[best as int].channels) > 0,
            None => forall|j: int|
                #![trigger ranges@[j]]
                0 <= j < ranges@.len() && covers(ranges@[j], wanted_rate) ==> channel_rank(
                    ranges@[j].channels,
                ) == 0,
        },
{
    let mut best: Option<usize> = None;
    let mut i: usize = 0;
    while i < ranges.len()
        invariant
            i <= ranges.len(),
            match best {
                Some(b) => is_best(ranges@, i as int, wanted_rate, b as int),
                None => forall|j: int|
                    #![trigger ranges@[j]]
                    0 <= j < i ==> !covers(ranges@[j], wanted_rate),
            },
        decreases ranges.len() - i,
    {
        let range = ranges[i];
        if range.min_sample_rate <= wanted_rate && wanted_rate <= range.max_sample_rate {
            match best {
                Some(b) => {
                    let held = ranges[b];
                    let channels: u8 = channel_score(range.channels);
                    let held_channels: u8 = channel_score(held.channels);
                    if held_channels < channels || (held_channels == channels && format_score(
                        held.kind,
                    ) <= format_score(range.kind)) {
                        best = Some(i);
                    }
                },
                None => {
                    best = Some(i);
                },
            }
        }
        i += 1;
    }
    match best {
        Some(b) => {
            if channel_score(ranges[b].channels) > 0 {
                Some(b)
            } else {
                None
            }
        },
        None => None,
    }
}

/// One channel is preferred over two, and two over any other number, whatever the samples are.
/// With the same channels, floating point is preferred over integers and wide integers over
/// narrow ones.
pub proof fn law_one_channel_of_the_widest_samples_is_preferred(a: StreamRange, b: StreamRange)
    ensures
        a.channels == 1 && b.channels != 1 ==> !no_worse(a, b) && no_worse(b, a),
        a.channels == 2 && b.channels != 1 && b.channels != 2 ==> !no_worse(a, b) && no_worse(
            b,
            a,
        ),
        a.channels == b.channels && a.kind == SampleKind::Float && b.kind != SampleKind::Float
            ==> !no_worse(a, b) && no_worse(b, a),
        a.channels == b.channels && a.kind == SampleKind::Wide && (b.kind == SampleKind::Medium
            || b.kind == SampleKind::Narrow || b.kind == SampleKind::Other) ==> !no_worse(a, b)
            && no_worse(b, a),
        a.channels == b.channels && a.kind == SampleKind::Medium && (b.kind == SampleKind::Narrow
            || b.kind == SampleKind::Other) ==> !no_worse(a, b) && no_worse(b, a),
        a.channels == b.channels && a.kind == SampleKind::Narrow && b.kind == SampleKind::Other
            ==> !no_worse(a, b) && no_worse(b, a),
        a.channels == b.channels && a.kind == b.kind ==> no_worse(a, b),
        channel_rank(a.channels) > 0 <==> a.channels == 1 || a.channels == 2,
{
}

/// The stream that is chosen runs at the rate asked for, nothing that does is preferred over
/// it, and of those that are as good it is the last.
pub proof fn law_the_best_stream_runs_at_the_rate_asked_for(
    ranges: Seq<StreamRange>,
    wanted_rate: u32,
    best: int,
    other: int,
)
    requires
        is_best(ranges, ranges.len() as int, wanted_rate, best),
        0 <= other < ranges.len(),
        ranges[other].min_sample_rate <= wanted_rate <= ranges[other].max_sample_rate,
    ensures
        ranges[best].min_sample_rate <= wanted_rate <= ranges[best].max_sample_rate,
        no_worse(ranges[other], ranges[best]),
        ranges[other].channels == 1 ==> ranges[best].channels == 1,
        ranges[other].channels == ranges[best].channels && ranges[other].kind
            == ranges[best].kind ==> other <= best,
{
}

} // verus!
