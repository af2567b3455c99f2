//! A backend that replays samples held in memory.
//!
//! This is what makes everything behind the capture channel testable without sound hardware.

use vstd::prelude::*;

use super::source::DeviceInfo;

verus! {

/// Replays samples in blocks, as a real backend's buffer size would.
#[derive(Debug)]
pub struct SyntheticSource {
    info: DeviceInfo,
    samples: Vec<u32>,
    /// Samples per delivered block.
    block: usize,
    /// Deliver in real time rather than as fast as possible.
    realtime: bool,
    /// Start again from the beginning instead of ending: a microphone does not run out.
    looping: bool,
    /// How much of the samples has been delivered.
    at: usize,
}

/// What a replay is.
pub struct SyntheticView {
    pub name: Seq<char>,
    pub sample_rate: u32,
    pub samples: Seq<u32>,
    pub block: int,
    pub realtime: bool,
    pub looping: bool,
    pub at: int,
}

impl SyntheticView {
    /// Where the next block begins, if there is one.
    pub open spec fn start(self) -> Option<int> {
        if self.at < self.samples.len() {
            Some(self.at)
        } else if self.looping && self.samples.len() > 0 {
            Some(0)
        } else {
            None
        }
    }

    /// Where a block that begins at `start` ends.
    pub open spec fn end(self, start: int) -> int {
        if start + self.block < self.samples.len() {
            start + self.block
        } else {
            self.samples.len() as int
        }
    }
}

impl View for SyntheticSource {
    type V = SyntheticView;

    closed spec fn view(&self) -> SyntheticView {
        SyntheticView {
            name: self.info.name@,
            sample_rate: self.info.sample_rate,
            samples: self.samples@,
            block: self.block as int,
            realtime: self.realtime,
            looping: self.looping,
            at: self.at as int,
        }
    }
}

impl SyntheticSource {
    #[verifier::type_invariant]
    spec fn in_range(self) -> bool {
        &&& self.at <= self.samples@.len()
        &&& self.block > 0
        &&& self.info.channels == 1
    }

    pub fn new(sample_rate: u32, samples: Vec<u32>) -> (result: Self)
        ensures
            result@ == (SyntheticView {
                name: "synthetic"@,
                sample_rate,
                samples: samples@,
                block: 480,
                realtime: false,
                looping: false,
                at: 0,
            }),
    {
        SyntheticSource {
            info: DeviceInfo { name: "synthetic".to_owned(), sample_rate, channels: 1 },
            samples,
            block: 480,
            realtime: false,
            looping: false,
            at: 0,
        }
    }

    /// Deliver in blocks of `samples`, and of one at the least.
    pub fn with_block(self, samples: usize) -> (result: Self)
        ensures
            result@ == (SyntheticView {
                block: if samples == 0 {
                    1
                } else {
                    samples as int
                },
                ..self@
            }),
    {
        proof {
            use_type_invariant(&self);
        }
        SyntheticSource {
            block: if samples == 0 {
                1
            } else {
                samples
            },
            info: self.info,
            samples: self.samples,
            realtime: self.realtime,
            looping: self.looping,
            at: self.at,
        }
    }

    /// Pace delivery against the clock instead of running flat out.
    pub fn realtime(self) -> (result: Self)
        ensures
            result@ == (SyntheticView { realtime: true, ..self@ }),
    {
        proof {
            use_type_invariant(&self);
        }
        SyntheticSource {
            realtime: true,
            info: self.info,
            samples: self.samples,
            block: self.block,
            looping: self.looping,
            at: self.at,
        }
    }

    /// Repeat forever, as an idle microphone effectively does.
    pub fn looping(self) -> (result: Self)
        ensures
            result@ == (SyntheticView { looping: true, ..self@ }),
    {
        proof {
            use_type_invariant(&self);
        }
        SyntheticSource {
            looping: true,
            info: self.info,
            samples: self.samples,
            block: self.block,
            realtime: self.realtime,
            at: self.at,
        }
    }

    pub fn named(self, name: String) -> (result: Self)
        ensures
            result@ == (SyntheticView { name: name@, ..self@ }),
    {
        proof {
            use_type_invariant(&self);
        }
        SyntheticSource {
            info: DeviceInfo { name, sample_rate: self.info.sample_rate, channels: 1 },
            samples: self.samples,
            block: self.block,
            realtime: self.realtime,
            looping: self.looping,
            at: self.at,
        }
    }

    /// What this produces.
    pub fn info(&self) -> (result: DeviceInfo)
        ensures
            result.name@ == self@.name,
            result.sample_rate == self@.sample_rate,
            result.channels == 1,
    {
        proof {
            use_type_invariant(self);
        }
        self.info.clone()
    }

    /// The next block, or none when everything has been delivered.
    pub fn next_block(&mut self) -> (result: Option<Vec<u32>>)
        ensures
            match old(self)@.start() {
                Some(start) => {
                    let end = old(self)@.end(start);
                    &&& result matches Some(block)
                    &&& block@ == old(self)@.samples.subrange(start, end)
                    &&& block@.len() > 0
                    &&& final(self)@ == (SyntheticView { at: end, ..old(self)@ })
                },
                None => result is None && final(self)@ == old(self)@,
            },
    {
        proof {
            use_type_invariant(&*self);
        }
        let length: usize = self.samples.len();
        let start: usize = if self.at < length {
            self.at
        } else if self.looping && length > 0 {
            0
        } else {
            return None;
        };
        let end: usize = if self.block < length - start {
            start + self.block
        } else {
            length
        };
        let mut block: Vec<u32> = Vec::new();
        block.extend_from_slice(
            vstd::slice::slice_subrange(self.samples.as_slice(), start, end),
        );
        assert(block@ =~= self.samples@.subrange(start as int, end as int));
        self.at = end;
        Some(block)
    }

    /// How long to wait after a block of `samples` samples, in microseconds.
    pub fn pause_micros(&self, samples: u32) -> (result: u64)
        ensures
            result == (if self@.realtime && self@.sample_rate > 0 {
                (samples * 1_000_000) / self@.sample_rate as int
            } else {
                0
            }),
    {
        if self.realtime && self.info.sample_rate > 0 {
            samples as u64 * 1_000_000 / self.info.sample_rate as u64
        } else {
            0
        }
    }
}

/// The blocks that a replay delivers, one after another.
pub open spec fn delivered(source: SyntheticView, blocks: nat) -> Seq<u32>
    decreases blocks,
{
    if blocks == 0 {
        Seq::empty()
    } else {
        match source.start() {
            Some(start) => source.samples.subrange(start, source.end(start)) + delivered(
                SyntheticView { at: source.end(start), ..source },
                (blocks - 1) as nat,
            ),
            None => Seq::empty(),
        }
    }
}

/// Everything arrives, once and in order, whatever the block size: a replay that does not
/// repeat delivers exactly its samples.
pub proof fn law_block_size_does_not_matter(source: SyntheticView, blocks: nat)
    requires
        source.block > 0,
        !source.looping,
        0 <= source.at <= source.samples.len(),
        blocks >= source.samples.len() - source.at,
    ensures
        delivered(source, blocks) == source.samples.skip(source.at),
    decreases blocks,
{
    if source.at == source.samples.len() {
        assert(source.samples.skip(source.at) =~= Seq::empty());
    } else {
        let end = source.end(source.at);
        let next = SyntheticView { at: end, ..source };
        law_block_size_does_not_matter(next, (blocks - 1) as nat);
        assert(source.samples.subrange(source.at, end) + source.samples.skip(end)
            =~= source.samples.skip(source.at));
    }
}

} // verus!
