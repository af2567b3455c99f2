//! Cleaning up old recordings.
//!
//! Left alone, the recordings grow forever: a year of push-to-talk is tens of thousands of
//! sessions. Both limits default to off, because deleting someone's recordings without being
//! asked is worse than using disk.
//!
//! The caller finds the recordings and removes the ones it is told to; which those are, and in
//! which order, is decided here.

use vstd::prelude::*;

use crate::clock::{Timestamp, NANOS_PER_SECOND};
use crate::config::StorageConfig;

verus! {

/// How deep below `recordings` a session directory can be: `YYYY/MM/DD/<session>`.
pub const MAX_DEPTH: usize = 4;

/// What a sweep removed.
#[derive(Debug, Clone, Copy, PartialEq, Eq, Default, Structural)]
pub struct Swept {
    pub removed: usize,
    pub bytes_freed: u64,
}

/// One recording on disk.
#[derive(Debug, PartialEq, Eq)]
pub struct Recording {
    pub dir: String,
    pub modified: Timestamp,
    pub bytes: u64,
}

impl Clone for Recording {
    fn clone(&self) -> (result: Self)
        ensures
            result == *self,
    {
        Recording { dir: self.dir.clone(), modified: self.modified, bytes: self.bytes }
    }
}

/// What to do about a directory found below the recordings.
#[derive(Debug, Clone, Copy, PartialEq, Eq, Structural)]
pub enum Visit {
    /// It is a session.
    Recording,
    /// It is not; sessions may be below it.
    Descend,
    /// Nothing of interest is this deep.
    Ignore,
}

/// What to do about a directory found inside a directory `depth` levels below the recordings.
///
/// A session directory is one containing `session.json`. Anything else in the tree is left
/// alone: this deletes the user's recordings, and it is not the place to be clever about
/// files it does not recognise.
pub fn visit(has_session_file: bool, depth: usize) -> (result: Visit)
    ensures
        result == (if has_session_file {
            Visit::Recording
        } else if depth < MAX_DEPTH {
            Visit::Descend
        } else {
            Visit::Ignore
        }),
        result == Visit::Descend <==> !has_session_file && depth < 4,
{
    if has_session_file {
        Visit::Recording
    } else if depth < MAX_DEPTH {
        Visit::Descend
    } else {
        Visit::Ignore
    }
}

/// How many bytes files take together.
pub open spec fn size_of_files(files: Seq<(u64, Option<Timestamp>)>) -> int
    decreases files.len(),
{
    if files.len() == 0 {
        0
    } else {
        size_of_files(files.drop_last()) + files.last().0
    }
}

/// When the newest of these files was modified: never before the epoch.
pub open spec fn newest_change(files: Seq<(u64, Option<Timestamp>)>) -> Timestamp
    decreases files.len(),
{
    if files.len() == 0 {
        Timestamp { seconds: 0, nanos: 0 }
    } else {
        let before = newest_change(files.drop_last());
        match files.last().1 {
            Some(modified) => if before.total() <= modified.total() {
                modified
            } else {
                before
            },
            None => before,
        }
    }
}

proof fn lemma_size_ascends(files: Seq<(u64, Option<Timestamp>)>, n: int)
    requires
        0 <= n <= files.len(),
    ensures
        0 <= size_of_files(files.take(n)) <= size_of_files(files),
    decreases files.len(),
{
    if n == files.len() {
        assert(files.take(n) =~= files);
        if n > 0 {
            assert(files.drop_last().take(n - 1) =~= files.drop_last());
            lemma_size_ascends(files.drop_last(), n - 1);
        }
    } else {
        assert(files.drop_last().take(n) =~= files.take(n));
        lemma_size_ascends(files.drop_last(), n);
    }
}

/// Which of two instants is later.
fn not_after(a: Timestamp, b: Timestamp) -> (result: bool)
    ensures
        result == (a.total() <= b.total()),
{
    nanos(a) <= nanos(b)
}

/// An instant in nanoseconds.
fn nanos(at: Timestamp) -> (result: i128)
    ensures
        result == at.total(),
        i64::MIN * 1_000_000_000 <= result <= i64::MAX * 1_000_000_000 + u32::MAX,
{
    proof {
        assert(at.seconds * NANOS_PER_SECOND == at.seconds * 1_000_000_000);
    }
    at.seconds as i128 * 1_000_000_000 + at.nanos as i128
}

/// The total size and the newest modification time of a session directory, from the sizes and
/// modification times of its files.
pub fn measure(files: &Vec<(u64, Option<Timestamp>)>) -> (result: (u64, Timestamp))
    requires
        size_of_files(files@) <= u64::MAX,
    ensures
        result.0 == size_of_files(files@),
        result.1 == newest_change(files@),
{
    let mut bytes: u64 = 0;
    let mut modified = Timestamp { seconds: 0, nanos: 0 };
    let mut i: usize = 0;
    while i < files.len()
        invariant
            i <= files.len(),
            size_of_files(files@) <= u64::MAX,
            bytes == size_of_files(files@.take(i as int)),
            modified == newest_change(files@.take(i as int)),
        decreases files.len() - i,
    {
        proof {
            lemma_size_ascends(files@, i + 1);
            assert(files@.take(i + 1).drop_last() =~= files@.take(i as int));
        }
        bytes += files[i].0;
        match files[i].1 {
            Some(time) => {
                if not_after(modified, time) {
                    modified = time;
                }
            },
            None => {},
        }
        i += 1;
    }
    assert(files@.take(i as int) =~= files@);
    (bytes, modified)
}

/// How many bytes recordings take together.
pub open spec fn size_of(recordings: Seq<Recording>) -> int
    decreases recordings.len(),
{
    if recordings.len() == 0 {
        0
    } else {
        size_of(recordings.drop_last()) + recordings.last().bytes
    }
}

/// A list in order of age with one more recording put in its place: behind all that are not
/// newer.
pub open spec fn placed(list: Seq<Recording>, recording: Recording) -> Seq<Recording>
    decreases list.len(),
{
    if list.len() == 0 || list.last().modified.total() <= recording.modified.total() {
        list.push(recording)
    } else {
        placed(list.drop_last(), recording).push(list.last())
    }
}

/// Recordings in order of age, the oldest first; those of the same age in the order they were
/// found.
pub open spec fn by_age(recordings: Seq<Recording>) -> Seq<Recording>
    decreases recordings.len(),
{
    if recordings.len() == 0 {
        Seq::empty()
    } else {
        placed(by_age(recordings.drop_last()), recordings.last())
    }
}

/// Whether recordings are in order of age, the oldest first.
pub open spec fn oldest_first(list: Seq<Recording>) -> bool {
    forall|i: int, j: int|
        0 <= i < j < list.len() ==> (#[trigger] list[i]).modified.total()
            <= (#[trigger] list[j]).modified.total()
}

proof fn lemma_placed(list: Seq<Recording>, recording: Recording)
    requires
        oldest_first(list),
    ensures
        oldest_first(placed(list, recording)),
        placed(list, recording).to_multiset() == list.to_multiset().insert(recording),
        size_of(placed(list, recording)) == size_of(list) + recording.bytes,
        placed(list, recording).len() == list.len() + 1,
        forall|i: int|
            0 <= i < placed(list, recording).len() ==> (#[trigger] placed(list, recording)[i])
                == recording || list.contains(placed(list, recording)[i]),
    decreases list.len(),
{
    broadcast use vstd::seq_lib::group_to_multiset_ensures;

    let result = placed(list, recording);
    if list.len() == 0 || list.last().modified.total() <= recording.modified.total() {
        assert(result.drop_last() =~= list);
        assert forall|i: int| 0 <= i < result.len() implies (#[trigger] result[i]) == recording
            || list.contains(result[i]) by {
            if i < list.len() {
                assert(list[i] == result[i]);
            }
        }
    } else {
        let shorter = list.drop_last();
        lemma_placed(shorter, recording);
        let inner = placed(shorter, recording);
        assert(result.drop_last() =~= inner);
        assert(list =~= shorter.push(list.last()));
        assert forall|i: int| 0 <= i < result.len() implies (#[trigger] result[i]) == recording
            || list.contains(result[i]) by {
            if i < inner.len() {
                assert(result[i] == inner[i]);
                if inner[i] != recording {
                    let k = choose|k: int| 0 <= k < shorter.len() && shorter[k] == inner[i];
                    assert(list[k] == inner[i]);
                }
            } else {
                assert(list[list.len() - 1] == result[i]);
            }
        }
        assert(oldest_first(result)) by {
            assert forall|i: int, j: int| 0 <= i < j < result.len() implies (
            #[trigger] result[i]).modified.total() <= (#[trigger] result[j]).modified.total() by {
                assert(result[i] == inner[i]);
                if j < inner.len() {
                    assert(result[j] == inner[j]);
                } else if inner[i] != recording {
                    let k = choose|k: int| 0 <= k < shorter.len() && shorter[k] == inner[i];
                    assert(list[k] == inner[i]);
                    assert(list[list.len() - 1] == list.last());
                }
            }
        }
    }
}

proof fn lemma_by_age(recordings: Seq<Recording>)
    ensures
        oldest_first(by_age(recordings)),
        by_age(recordings).to_multiset() == recordings.to_multiset(),
        size_of(by_age(recordings)) == size_of(recordings),
        by_age(recordings).len() == recordings.len(),
    decreases recordings.len(),
{
    broadcast use vstd::seq_lib::group_to_multiset_ensures;

    if recordings.len() > 0 {
        lemma_by_age(recordings.drop_last());
        lemma_placed(by_age(recordings.drop_last()), recordings.last());
        assert(recordings =~= recordings.drop_last().push(recordings.last()));
    } else {
        assert(by_age(recordings) =~= recordings);
    }
}

/// Where a recording belongs in a list in order of age.
proof fn lemma_place(list: Seq<Recording>, recording: Recording, at: int)
    requires
        0 <= at <= list.len(),
        at > 0 ==> list[at - 1].modified.total() <= recording.modified.total(),
        forall|i: int|
            at <= i < list.len() ==> (#[trigger] list[i]).modified.total()
                > recording.modified.total(),
    ensures
        placed(list, recording) == list.insert(at, recording),
    decreases list.len(),
{
    if at == list.len() {
        assert(list.insert(at, recording) =~= list.push(recording));
    } else {
        let shorter = list.drop_last();
        assert(list[list.len() - 1].modified.total() > recording.modified.total());
        assert forall|i: int| at <= i < shorter.len() implies (
        #[trigger] shorter[i]).modified.total() > recording.modified.total() by {
            assert(shorter[i] == list[i]);
        }
        lemma_place(shorter, recording, at);
        assert(list.insert(at, recording) =~= shorter.insert(at, recording).push(list.last()));
    }
}

/// Recordings in order of age.
fn sort_by_age(recordings: &Vec<Recording>) -> (result: Vec<Recording>)
    ensures
        result@ == by_age(recordings@),
{
    let mut out: Vec<Recording> = Vec::new();
    let mut i: usize = 0;
    assert(out@ =~= by_age(recordings@.take(0)));
    while i < recordings.len()
        invariant
            i <= recordings.len(),
            out@ == by_age(recordings@.take(i as int)),
        decreases recordings.len() - i,
    {
        let recording = recordings[i].clone();
        let mut at: usize = out.len();
        proof {
            lemma_by_age(recordings@.take(i as int));
            assert(recordings@.take(i + 1).drop_last() =~= recordings@.take(i as int));
        }
        while at > 0 && !not_after(out[at - 1].modified, recording.modified)
            invariant
                at <= out.len(),
                forall|k: int|
                    at <= k < out@.len() ==> (#[trigger] out@[k]).modified.total()
                        > recording.modified.total(),
            decreases at,
        {
            at -= 1;
        }
        proof {
            lemma_place(out@, recording, at as int);
        }
        out.insert(at, recording);
        i += 1;
    }
    assert(recordings@.take(i as int) =~= recordings@);
    out
}

/// Whether a recording is past the age limit.
pub open spec fn too_old(recording: Recording, max_age_days: u32, now: Timestamp) -> bool {
    now.total() - recording.modified.total() > max_age_days * 86_400 * 1_000_000_000
}

/// The recordings that are past the age limit, or not, in the order of the list.
pub open spec fn split_off(
    list: Seq<Recording>,
    max_age_days: u32,
    now: Timestamp,
    old: bool,
) -> Seq<Recording>
    decreases list.len(),
{
    if list.len() == 0 {
        Seq::empty()
    } else {
        let before = split_off(list.drop_last(), max_age_days, now, old);
        if too_old(list.last(), max_age_days, now) == old {
            before.push(list.last())
        } else {
            before
        }
    }
}

proof fn lemma_split_sizes(list: Seq<Recording>, max_age_days: u32, now: Timestamp)
    ensures
        size_of(split_off(list, max_age_days, now, true)) + size_of(
            split_off(list, max_age_days, now, false),
        ) == size_of(list),
        split_off(list, max_age_days, now, true).len() + split_off(
            list,
            max_age_days,
            now,
            false,
        ).len() == list.len(),
    decreases list.len(),
{
    if list.len() > 0 {
        let shorter = list.drop_last();
        lemma_split_sizes(shorter, max_age_days, now);
        let old = split_off(shorter, max_age_days, now, true);
        let young = split_off(shorter, max_age_days, now, false);
        assert(old.push(list.last()).drop_last() =~= old);
        assert(young.push(list.last()).drop_last() =~= young);
    }
}

/// What a sweep has left to do.
pub struct SweepView {
    /// Recordings past the age limit that are to be removed, the oldest first.
    pub aged: Seq<Recording>,
    /// The others, the oldest first.
    pub rest: Seq<Recording>,
    /// How many bytes are on disk, not counting what the age limit takes.
    pub total: int,
    /// How many there may be; zero is no limit.
    pub limit: u64,
    pub swept: Swept,
}

impl SweepView {
    /// The sweep that a configuration asks for.
    pub open spec fn of(recordings: Seq<Recording>, config: StorageConfig, now: Timestamp) -> Self {
        let ordered = by_age(recordings);
        let aged = if config.max_age_days > 0 {
            split_off(ordered, config.max_age_days, now, true)
        } else {
            Seq::empty()
        };
        let rest = if config.max_age_days > 0 {
            split_off(ordered, config.max_age_days, now, false)
        } else {
            ordered
        };
        SweepView {
            aged,
            rest,
            total: size_of(rest),
            limit: config.max_total_bytes,
            swept: Swept { removed: 0, bytes_freed: 0 },
        }
    }

    /// The recording to remove next, if any: what is too old first, and then the oldest of
    /// the rest for as long as they take too much room.
    pub open spec fn next(self) -> Option<Recording> {
        if self.aged.len() > 0 {
            Some(self.aged[0])
        } else if self.limit > 0 && self.total > self.limit && self.rest.len() > 0 {
            Some(self.rest[0])
        } else {
            None
        }
    }

    /// What is left once the removal of that recording was tried.
    pub open spec fn after(self, removed: bool) -> SweepView {
        let recording = self.next()->0;
        let swept = if removed {
            Swept {
                removed: (self.swept.removed + 1) as usize,
                bytes_freed: (self.swept.bytes_freed + recording.bytes) as u64,
            }
        } else {
            self.swept
        };
        if self.aged.len() > 0 {
            SweepView { aged: self.aged.drop_first(), swept, ..self }
        } else {
            SweepView {
                rest: self.rest.drop_first(),
                total: if removed {
                    self.total - recording.bytes
                } else {
                    self.total
                },
                swept,
                ..self
            }
        }
    }

    /// What is left once all removals were tried, in order, with these results.
    pub open spec fn run(self, removals: Seq<bool>) -> SweepView
        decreases removals.len(),
    {
        if removals.len() == 0 || self.next() is None {
            self
        } else {
            self.after(removals[0]).run(removals.drop_first())
        }
    }
}

/// A sweep in progress.
#[derive(Debug)]
pub struct Sweep {
    aged: Vec<Recording>,
    rest: Vec<Recording>,
    total: u64,
    limit: u64,
    swept: Swept,
}

impl View for Sweep {
    type V = SweepView;

    closed spec fn view(&self) -> SweepView {
        SweepView {
            aged: self.aged@,
            rest: self.rest@,
            total: self.total as int,
            limit: self.limit,
            swept: self.swept,
        }
    }
}

proof fn lemma_size_drop_first(list: Seq<Recording>)
    requires
        list.len() > 0,
    ensures
        size_of(list) == list[0].bytes + size_of(list.drop_first()),
        size_of(list.drop_first()) >= 0,
    decreases list.len(),
{
    if list.len() == 1 {
        assert(list.drop_first() =~= Seq::empty());
        assert(list.drop_last() =~= Seq::empty());
    } else {
        lemma_size_drop_first(list.drop_last());
        assert(list.drop_first().drop_last() =~= list.drop_last().drop_first());
    }
}

proof fn lemma_size_non_negative(list: Seq<Recording>)
    ensures
        size_of(list) >= 0,
    decreases list.len(),
{
    if list.len() > 0 {
        lemma_size_non_negative(list.drop_last());
    }
}

/// Decide which recordings exceed the configured limits.
///
/// Age first, then total size, oldest first. Running age before size means a size sweep only
/// has to deal with what age did not already take, which is the order a user would expect if
/// they set both.
pub fn sweep(recordings: &Vec<Recording>, config: &StorageConfig, now: Timestamp) -> (result: Sweep)
    requires
        size_of(recordings@) <= u64::MAX,
    ensures
        result.wf(),
        result@ == SweepView::of(recordings@, *config, now),
{
    let ordered = sort_by_age(recordings);
    proof {
        lemma_by_age(recordings@);
        lemma_split_sizes(ordered@, config.max_age_days, now);
        lemma_size_non_negative(split_off(ordered@, config.max_age_days, now, true));
        lemma_size_non_negative(split_off(ordered@, config.max_age_days, now, false));
    }
    let mut aged: Vec<Recording> = Vec::new();
    let mut rest: Vec<Recording> = Vec::new();
    let mut total: u64 = 0;
    let cutoff: i128 = config.max_age_days as i128 * 86_400 * 1_000_000_000;
    let mut i: usize = 0;
    let ghost split = config.max_age_days > 0;
    while i < ordered.len()
        invariant
            i <= ordered.len(),
            split == (config.max_age_days > 0),
            cutoff == config.max_age_days * 86_400 * 1_000_000_000,
            size_of(ordered@) <= u64::MAX,
            total == size_of(rest@),
            size_of(aged@) + size_of(rest@) == size_of(ordered@.take(i as int)),
            aged@ == (if split {
                split_off(ordered@.take(i as int), config.max_age_days, now, true)
            } else {
                Seq::empty()
            }),
            rest@ == (if split {
                split_off(ordered@.take(i as int), config.max_age_days, now, false)
            } else {
                ordered@.take(i as int)
            }),
            aged@.len() + rest@.len() == i,
        decreases ordered.len() - i,
    {
        let ghost before = (aged@, rest@);
        let recording = ordered[i].clone();
        proof {
            assert(ordered@.take(i + 1).drop_last() =~= ordered@.take(i as int));
            assert(ordered@.take(i + 1).last() == recording);
            lemma_size_prefix(ordered@, i + 1);
            lemma_size_non_negative(aged@);
            assert(before.0.push(recording).drop_last() =~= before.0);
            assert(before.1.push(recording).drop_last() =~= before.1);
        }
        if config.max_age_days > 0 && nanos(now) - nanos(recording.modified) > cutoff {
            aged.push(recording);
        } else {
            total += recording.bytes;
            rest.push(recording);
            assert(ordered@.take(i + 1) =~= ordered@.take(i as int).push(recording));
        }
        i += 1;
    }
    assert(ordered@.take(i as int) =~= ordered@);
    Sweep {
        aged,
        rest,
        total,
        limit: config.max_total_bytes,
        swept: Swept { removed: 0, bytes_freed: 0 },
    }
}

proof fn lemma_size_prefix(list: Seq<Recording>, n: int)
    requires
        0 <= n <= list.len(),
    ensures
        size_of(list.take(n)) <= size_of(list),
    decreases list.len(),
{
    if n == list.len() {
        assert(list.take(n) =~= list);
    } else {
        assert(list.drop_last().take(n) =~= list.take(n));
        lemma_size_prefix(list.drop_last(), n);
    }
}

impl Sweep {
    /// Whether the counters are consistent with what is left.
    pub closed spec fn wf(self) -> bool {
        &&& size_of(self.rest@) <= self.total
        &&& self.swept.bytes_freed + size_of(self.aged@) + self.total <= u64::MAX
        &&& self.swept.removed + self.aged@.len() + self.rest@.len() <= usize::MAX
    }

    /// The directory of the recording to remove next, or none when the sweep is over.
    pub fn next(&self) -> (result: Option<&str>)
        ensures
            match result {
                Some(dir) => self@.next() matches Some(recording) && dir@ == recording.dir@,
                None => self@.next() is None,
            },
    {
        if self.aged.len() > 0 {
            Some(self.aged[0].dir.as_str())
        } else if self.limit > 0 && self.total > self.limit && self.rest.len() > 0 {
            Some(self.rest[0].dir.as_str())
        } else {
            None
        }
    }

    /// The removal of that recording was tried; `removed` says whether it worked. One that
    /// could not be removed is passed over, and not counted.
    pub fn tried(&mut self, removed: bool)
        requires
            old(self).wf(),
            old(self)@.next() is Some,
        ensures
            final(self).wf(),
            final(self)@ == old(self)@.after(removed),
    {
        proof {
            lemma_size_non_negative(self.aged@);
            if self.aged@.len() > 0 {
                lemma_size_drop_first(self.aged@);
            } else {
                lemma_size_drop_first(self.rest@);
            }
        }
        if self.aged.len() > 0 {
            let recording = self.aged.remove(0);
            assert(self.aged@ =~= old(self).aged@.drop_first());
            if removed {
                self.swept = Swept {
                    removed: self.swept.removed + 1,
                    bytes_freed: self.swept.bytes_freed + recording.bytes,
                };
            }
        } else {
            let recording = self.rest.remove(0);
            assert(self.rest@ =~= old(self).rest@.drop_first());
            if removed {
                self.total = self.total - recording.bytes;
                self.swept = Swept {
                    removed: self.swept.removed + 1,
                    bytes_freed: self.swept.bytes_freed + recording.bytes,
                };
            }
        }
    }

    /// What has been removed so far.
    pub fn swept(&self) -> (result: Swept)
        ensures
            result == self@.swept,
    {
        self.swept
    }
}

/// Nothing is removed when both limits are off.
pub proof fn law_no_limits_remove_nothing(
    recordings: Seq<Recording>,
    config: StorageConfig,
    now: Timestamp,
)
    requires
        config.max_age_days == 0,
        config.max_total_bytes == 0,
    ensures
        SweepView::of(recordings, config, now).next() is None,
{
}

/// The recordings are put in order, none is lost and none is invented.
pub proof fn law_order_is_by_age(recordings: Seq<Recording>)
    ensures
        oldest_first(by_age(recordings)),
        by_age(recordings).to_multiset() == recordings.to_multiset(),
{
    lemma_by_age(recordings);
}

/// With only an age limit, what is removed is exactly what is past it.
pub proof fn law_the_age_limit_takes_what_is_too_old(
    list: Seq<Recording>,
    max_age_days: u32,
    now: Timestamp,
    i: int,
)
    requires
        0 <= i < split_off(list, max_age_days, now, true).len(),
    ensures
        too_old(split_off(list, max_age_days, now, true)[i], max_age_days, now),
        list.contains(split_off(list, max_age_days, now, true)[i]),
    decreases list.len(),
{
    let shorter = list.drop_last();
    if i < split_off(shorter, max_age_days, now, true).len() {
        law_the_age_limit_takes_what_is_too_old(shorter, max_age_days, now, i);
        let k = choose|k: int|
            0 <= k < shorter.len() && shorter[k] == split_off(shorter, max_age_days, now, true)[i];
        assert(list[k] == shorter[k]);
    } else {
        assert(list[list.len() - 1] == list.last());
    }
}

/// A recording that is not past the age limit is left to the size limit.
pub proof fn law_young_recordings_are_left_to_the_size_limit(
    list: Seq<Recording>,
    max_age_days: u32,
    now: Timestamp,
    k: int,
)
    requires
        0 <= k < list.len(),
        !too_old(list[k], max_age_days, now),
    ensures
        split_off(list, max_age_days, now, false).contains(list[k]),
    decreases list.len(),
{
    let shorter = list.drop_last();
    let young = split_off(list, max_age_days, now, false);
    if k < shorter.len() {
        law_young_recordings_are_left_to_the_size_limit(shorter, max_age_days, now, k);
        let before = split_off(shorter, max_age_days, now, false);
        let j = choose|j: int| 0 <= j < before.len() && before[j] == shorter[k];
        assert(young[j] == list[k]);
    } else {
        assert(young[young.len() - 1] == list[k]);
    }
}

/// A sweep comes to an end, whatever the removals come to: each one tried leaves one less to
/// try.
pub proof fn law_a_sweep_ends(sweep: SweepView, removed: bool)
    requires
        sweep.next() is Some,
    ensures
        sweep.after(removed).aged.len() + sweep.after(removed).rest.len() + 1 == sweep.aged.len()
            + sweep.rest.len(),
{
}

/// When every removal works, the size limit is met at the end, and nothing more than the
/// oldest recordings that stood in its way is gone.
pub proof fn law_the_size_limit_is_met(sweep: SweepView, removals: Seq<bool>)
    requires
        sweep.limit > 0,
        sweep.total == size_of(sweep.rest),
        removals.len() == sweep.aged.len() + sweep.rest.len(),
        forall|i: int| 0 <= i < removals.len() ==> #[trigger] removals[i],
    ensures
        ({
            let end = sweep.run(removals);
            &&& end.total <= sweep.limit
            &&& end.total == size_of(end.rest)
            &&& end.rest.is_suffix_of(sweep.rest)
            &&& end.next() is None
        }),
    decreases removals.len(),
{
    if sweep.next() is None {
        assert(sweep.rest.is_suffix_of(sweep.rest));
        if sweep.rest.len() == 0 {
            lemma_size_non_negative(sweep.rest);
        }
    } else {
        let next = sweep.after(true);
        let left = removals.drop_first();
        assert(removals[0]);
        assert forall|i: int| 0 <= i < left.len() implies #[trigger] left[i] by {
            assert(removals[i + 1]);
        }
        if sweep.aged.len() == 0 {
            lemma_size_drop_first(sweep.rest);
        }
        law_the_size_limit_is_met(next, left);
        let end = next.run(left);
        let shorter = next.rest;
        assert(end.rest.is_suffix_of(sweep.rest)) by {
            assert(shorter.skip(shorter.len() - end.rest.len()) =~= end.rest);
            assert(sweep.rest.skip(sweep.rest.len() - end.rest.len()) =~= end.rest);
        }
    }
}

/// How many of the rest a whole sweep takes: what it leaves at the end is what is behind them.
pub open spec fn taken_for_size(sweep: SweepView, end: SweepView) -> int {
    sweep.rest.len() - end.rest.len()
}

/// Whether `end` is what a sweep comes to when every removal works. Everything that is too old
/// is gone, and of the rest the shortest run of the oldest that leaves no more than the limit;
/// and what is counted is what is gone.
pub open spec fn swept_clean(sweep: SweepView, end: SweepView) -> bool {
    let k = taken_for_size(sweep, end);
    &&& end.next() is None
    &&& end.aged.len() == 0
    &&& 0 <= k
    &&& end.rest == sweep.rest.skip(k)
    &&& sweep.limit > 0 ==> size_of(end.rest) <= sweep.limit
    &&& k > 0 ==> sweep.limit > 0 && size_of(sweep.rest.skip(k - 1)) > sweep.limit
    &&& end.swept.removed == sweep.swept.removed + sweep.aged.len() + k
    &&& end.swept.bytes_freed == sweep.swept.bytes_freed + size_of(sweep.aged) + size_of(
        sweep.rest.take(k),
    )
}

proof fn lemma_whole_sweep(sweep: SweepView, removals: Seq<bool>)
    requires
        sweep.total == size_of(sweep.rest),
        removals.len() >= sweep.aged.len() + sweep.rest.len(),
        forall|i: int| 0 <= i < removals.len() ==> #[trigger] removals[i],
        sweep.swept.bytes_freed + size_of(sweep.aged) + size_of(sweep.rest) <= u64::MAX,
        sweep.swept.removed + sweep.aged.len() + sweep.rest.len() <= usize::MAX,
    ensures
        swept_clean(sweep, sweep.run(removals)),
    decreases removals.len(),
{
    let end = sweep.run(removals);
    lemma_size_non_negative(sweep.aged);
    lemma_size_non_negative(sweep.rest);
    if sweep.next() is None {
        assert(sweep.rest.skip(0) =~= sweep.rest);
        assert(sweep.rest.take(0) =~= Seq::empty());
        assert(end == sweep);
    } else {
        let next = sweep.after(true);
        let left = removals.drop_first();
        assert(removals[0]);
        assert forall|i: int| 0 <= i < left.len() implies #[trigger] left[i] by {
            assert(removals[i + 1]);
        }
        if sweep.aged.len() > 0 {
            lemma_size_drop_first(sweep.aged);
            lemma_whole_sweep(next, left);
        } else {
            lemma_size_drop_first(sweep.rest);
            lemma_whole_sweep(next, left);
            let k = taken_for_size(sweep, end);
            assert(next.rest.skip(k - 1) =~= sweep.rest.skip(k));
            if k > 1 {
                assert(next.rest.skip(k - 2) =~= sweep.rest.skip(k - 1));
            } else {
                assert(sweep.rest.skip(0) =~= sweep.rest);
            }
            lemma_size_drop_first(sweep.rest.take(k));
            assert(sweep.rest.take(k).drop_first() =~= next.rest.take(k - 1));
        }
    }
}

/// A whole sweep in which every removal works removes exactly what the limits ask for, oldest
/// first, and counts it; and a second one at the same time, over what is left in whatever
/// order it is found, removes nothing.
pub proof fn law_a_whole_sweep_is_exact(
    recordings: Seq<Recording>,
    config: StorageConfig,
    now: Timestamp,
    removals: Seq<bool>,
    left: Seq<Recording>,
)
    requires
        size_of(recordings) <= u64::MAX,
        recordings.len() <= usize::MAX,
        removals.len() == recordings.len(),
        forall|i: int| 0 <= i < removals.len() ==> #[trigger] removals[i],
        left.to_multiset() == SweepView::of(recordings, config, now).run(removals).rest.to_multiset(),
    ensures
        swept_clean(
            SweepView::of(recordings, config, now),
            SweepView::of(recordings, config, now).run(removals),
        ),
        SweepView::of(left, config, now).next() is None,
{
    let sweep = SweepView::of(recordings, config, now);
    let end = sweep.run(removals);
    let ordered = by_age(recordings);
    lemma_by_age(recordings);
    lemma_split_sizes(ordered, config.max_age_days, now);
    lemma_size_non_negative(sweep.aged);
    lemma_size_non_negative(sweep.rest);
    lemma_whole_sweep(sweep, removals);

    let again = by_age(left);
    lemma_by_age(left);
    lemma_size_in_any_order(left, end.rest);
    if config.max_age_days > 0 {
        assert forall|i: int| 0 <= i < again.len() implies !too_old(
            #[trigger] again[i],
            config.max_age_days,
            now,
        ) by {
            assert(again.contains(again[i]));
            vstd::seq_lib::to_multiset_contains(again, again[i]);
            vstd::seq_lib::to_multiset_contains(end.rest, again[i]);
            let j = end.rest.index_of(again[i]);
            assert(end.rest[j] == sweep.rest[taken_for_size(sweep, end) + j]);
            lemma_young(ordered, config.max_age_days, now, taken_for_size(sweep, end) + j);
        }
        lemma_none_too_old(again, config.max_age_days, now);
    }
}

/// What the age limit leaves is not too old.
proof fn lemma_young(list: Seq<Recording>, max_age_days: u32, now: Timestamp, i: int)
    requires
        0 <= i < split_off(list, max_age_days, now, false).len(),
    ensures
        !too_old(split_off(list, max_age_days, now, false)[i], max_age_days, now),
    decreases list.len(),
{
    let shorter = list.drop_last();
    if i < split_off(shorter, max_age_days, now, false).len() {
        lemma_young(shorter, max_age_days, now, i);
    }
}

proof fn lemma_none_too_old(list: Seq<Recording>, max_age_days: u32, now: Timestamp)
    requires
        forall|i: int|
            0 <= i < list.len() ==> !too_old(#[trigger] list[i], max_age_days, now),
    ensures
        split_off(list, max_age_days, now, true).len() == 0,
        split_off(list, max_age_days, now, false) == list,
    decreases list.len(),
{
    if list.len() > 0 {
        let shorter = list.drop_last();
        assert(forall|i: int| 0 <= i < shorter.len() ==> shorter[i] == list[i]);
        lemma_none_too_old(shorter, max_age_days, now);
        assert(!too_old(list[list.len() - 1], max_age_days, now));
        assert(shorter.push(list.last()) =~= list);
    } else {
        assert(split_off(list, max_age_days, now, false) =~= list);
    }
}

proof fn lemma_size_in_any_order(list: Seq<Recording>, other: Seq<Recording>)
    requires
        list.to_multiset() == other.to_multiset(),
    ensures
        size_of(list) == size_of(other),
{
    lemma_size_is_a_weight(list);
    lemma_size_is_a_weight(other);
    crate::lists::lemma_weight_in_any_order(list, other, |r: Recording| r.bytes as int);
}

proof fn lemma_size_is_a_weight(list: Seq<Recording>)
    ensures
        size_of(list) == crate::lists::weight_of(list, |r: Recording| r.bytes as int),
    decreases list.len(),
{
    if list.len() > 0 {
        lemma_size_is_a_weight(list.drop_last());
    }
}

// ── what the limits come to ─────────────────────────────────────────────────

/// With an age limit of `d` days and no size limit, for every `d` and every recording: it is
/// removed exactly when more than `d` times 24 hours have passed since it was modified, and
/// every copy of it that is not is still there.
pub proof fn law_the_age_limit_counts_whole_days(
    recordings: Seq<Recording>,
    config: StorageConfig,
    now: Timestamp,
    removals: Seq<bool>,
    recording: Recording,
)
    requires
        config.max_age_days > 0,
        config.max_total_bytes == 0,
        size_of(recordings) <= u64::MAX,
        recordings.len() <= usize::MAX,
        removals.len() == recordings.len(),
        forall|i: int| 0 <= i < removals.len() ==> #[trigger] removals[i],
    ensures
        ({
            let end = SweepView::of(recordings, config, now).run(removals);
            let age = (now.seconds * 1_000_000_000 + now.nanos) - (recording.modified.seconds
                * 1_000_000_000 + recording.modified.nanos);
            let kept = end.rest.to_multiset().count(recording);
            &&& end.next() is None
            &&& end.aged.len() == 0
            &&& age > config.max_age_days * 24 * 60 * 60 * 1_000_000_000 ==> kept == 0
            &&& age <= config.max_age_days * 24 * 60 * 60 * 1_000_000_000 ==> kept
                == recordings.to_multiset().count(recording)
            &&& end.swept.removed + end.rest.len() == recordings.len()
            &&& end.swept.bytes_freed + size_of(end.rest) == size_of(recordings)
        }),
{
    let sweep = SweepView::of(recordings, config, now);
    let end = sweep.run(removals);
    let ordered = by_age(recordings);
    lemma_by_age(recordings);
    lemma_split_sizes(ordered, config.max_age_days, now);
    lemma_size_non_negative(sweep.aged);
    lemma_size_non_negative(sweep.rest);
    lemma_whole_sweep(sweep, removals);
    assert(sweep.rest.skip(0) =~= sweep.rest);
    assert(sweep.rest.take(0) =~= Seq::empty());
    lemma_split_counts(ordered, config.max_age_days, now, false, recording);
    assert(config.max_age_days * 24 * 60 * 60 * 1_000_000_000 == config.max_age_days * 86_400
        * 1_000_000_000);
}

proof fn lemma_split_counts(
    list: Seq<Recording>,
    max_age_days: u32,
    now: Timestamp,
    old: bool,
    recording: Recording,
)
    ensures
        split_off(list, max_age_days, now, old).to_multiset().count(recording) == (if too_old(
            recording,
            max_age_days,
            now,
        ) == old {
            list.to_multiset().count(recording)
        } else {
            0
        }),
    decreases list.len(),
{
    broadcast use vstd::seq_lib::group_to_multiset_ensures;

    if list.len() > 0 {
        let shorter = list.drop_last();
        lemma_split_counts(shorter, max_age_days, now, old, recording);
        assert(list =~= shorter.push(list.last()));
    }
}

/// Whatever removals work and whatever the limits are, the recording that comes up for removal
/// next is one that the limits ask for: it is more than the configured days old, or there is
/// a size limit, what is left is over it, and nothing left is older.
pub proof fn law_nothing_within_the_limits_comes_up(
    recordings: Seq<Recording>,
    config: StorageConfig,
    now: Timestamp,
    removals: Seq<bool>,
)
    ensures
        SweepView::of(recordings, config, now).run(removals).next() matches Some(recording) ==> {
            let here = SweepView::of(recordings, config, now).run(removals);
            let age = (now.seconds * 1_000_000_000 + now.nanos) - (recording.modified.seconds
                * 1_000_000_000 + recording.modified.nanos);
            ||| {
                &&& config.max_age_days > 0
                &&& age > config.max_age_days * 24 * 60 * 60 * 1_000_000_000
            }
            ||| {
                &&& config.max_total_bytes > 0
                &&& here.total > config.max_total_bytes
                &&& forall|j: int|
                    0 <= j < here.rest.len() ==> recording.modified.seconds * 1_000_000_000
                        + recording.modified.nanos <= (
                    #[trigger] here.rest[j]).modified.seconds * 1_000_000_000
                        + here.rest[j].modified.nanos
            }
        },
{
    let sweep = SweepView::of(recordings, config, now);
    let ordered = by_age(recordings);
    lemma_by_age(recordings);
    assert(config.max_age_days * 24 * 60 * 60 * 1_000_000_000 == config.max_age_days * 86_400
        * 1_000_000_000);
    if config.max_age_days > 0 {
        lemma_split_ordered(ordered, config.max_age_days, now);
        assert forall|i: int| 0 <= i < sweep.aged.len() implies too_old(
            #[trigger] sweep.aged[i],
            config.max_age_days,
            now,
        ) by {
            law_the_age_limit_takes_what_is_too_old(ordered, config.max_age_days, now, i);
        }
    }
    lemma_run_keeps(sweep, removals, config.max_age_days, now);
    let here = sweep.run(removals);
    if here.next() is Some {
        if here.aged.len() > 0 {
            assert(too_old(here.aged[0], config.max_age_days, now));
        } else {
            assert forall|j: int| 0 <= j < here.rest.len() implies here.rest[0].modified.total()
                <= (#[trigger] here.rest[j]).modified.total() by {}
        }
    }
}

proof fn lemma_split_ordered(list: Seq<Recording>, max_age_days: u32, now: Timestamp)
    requires
        oldest_first(list),
    ensures
        oldest_first(split_off(list, max_age_days, now, false)),
        forall|i: int|
            0 <= i < split_off(list, max_age_days, now, false).len() ==> list.contains(
                #[trigger] split_off(list, max_age_days, now, false)[i],
            ),
    decreases list.len(),
{
    if list.len() > 0 {
        let shorter = list.drop_last();
        lemma_split_ordered(shorter, max_age_days, now);
        let before = split_off(shorter, max_age_days, now, false);
        let young = split_off(list, max_age_days, now, false);
        assert(list[list.len() - 1] == list.last());
        assert forall|i: int| 0 <= i < before.len() implies list.contains(
            #[trigger] before[i],
        ) && before[i].modified.total() <= list.last().modified.total() by {
            assert(shorter.contains(before[i]));
            let k = choose|k: int| 0 <= k < shorter.len() && shorter[k] == before[i];
            assert(list[k] == before[i]);
        }
        assert forall|i: int| 0 <= i < young.len() implies list.contains(#[trigger] young[i]) by {
            if i < before.len() {
                assert(young[i] == before[i]);
            }
        }
        assert forall|i: int, j: int| 0 <= i < j < young.len() implies (
        #[trigger] young[i]).modified.total() <= (#[trigger] young[j]).modified.total() by {
            assert(young[i] == before[i]);
            if j < before.len() {
                assert(young[j] == before[j]);
            }
        }
    }
}

proof fn lemma_run_keeps(sweep: SweepView, removals: Seq<bool>, max_age_days: u32, now: Timestamp)
    requires
        oldest_first(sweep.rest),
        sweep.aged.len() > 0 ==> max_age_days > 0,
        forall|i: int|
            0 <= i < sweep.aged.len() ==> too_old(#[trigger] sweep.aged[i], max_age_days, now),
    ensures
        oldest_first(sweep.run(removals).rest),
        sweep.run(removals).limit == sweep.limit,
        sweep.run(removals).aged.len() > 0 ==> max_age_days > 0,
        forall|i: int|
            0 <= i < sweep.run(removals).aged.len() ==> too_old(
                #[trigger] sweep.run(removals).aged[i],
                max_age_days,
                now,
            ),
    decreases removals.len(),
{
    if removals.len() > 0 && sweep.next() is Some {
        let next = sweep.after(removals[0]);
        assert forall|i: int| 0 <= i < next.aged.len() implies too_old(
            #[trigger] next.aged[i],
            max_age_days,
            now,
        ) by {
            assert(too_old(sweep.aged[i + 1], max_age_days, now));
        }
        assert(oldest_first(next.rest)) by {
            if sweep.aged.len() == 0 {
                assert forall|i: int, j: int| 0 <= i < j < next.rest.len() implies (
                #[trigger] next.rest[i]).modified.total() <= (
                #[trigger] next.rest[j]).modified.total() by {
                    assert(next.rest[i] == sweep.rest[i + 1]);
                    assert(next.rest[j] == sweep.rest[j + 1]);
                }
            }
        }
        lemma_run_keeps(next, removals.drop_first(), max_age_days, now);
    }
}

/// Trying a removal is counted as it went: one that works adds one recording and its bytes to
/// what was swept and takes the bytes off what the size limit looks at, unless the age limit
/// took it. One that fails changes no count, and is not tried again.
pub proof fn law_a_removal_counts_only_when_it_works(sweep: SweepView, removed: bool)
    requires
        sweep.next() is Some,
        sweep.swept.removed < usize::MAX,
        sweep.swept.bytes_freed + (sweep.next()->0).bytes <= u64::MAX,
    ensures
        ({
            let recording = sweep.next()->0;
            let after = sweep.after(removed);
            &&& removed ==> after.swept.removed == sweep.swept.removed + 1
                && after.swept.bytes_freed == sweep.swept.bytes_freed + recording.bytes
            &&& !removed ==> after.swept == sweep.swept && after.total == sweep.total
            &&& sweep.aged.len() > 0 ==> recording == sweep.aged[0] && after.aged
                == sweep.aged.skip(1) && after.rest == sweep.rest && after.total == sweep.total
            &&& sweep.aged.len() == 0 ==> recording == sweep.rest[0] && after.rest
                == sweep.rest.skip(1) && after.aged.len() == 0 && (removed ==> after.total
                == sweep.total - recording.bytes)
            &&& after.limit == sweep.limit
        }),
{
    if sweep.aged.len() > 0 {
        assert(sweep.aged.drop_first() =~= sweep.aged.skip(1));
    } else {
        assert(sweep.rest.drop_first() =~= sweep.rest.skip(1));
    }
}

/// A session directory takes as many bytes as its files together, and is as new as the newest
/// of them.
pub proof fn law_a_session_is_as_new_as_its_newest_file(files: Seq<(u64, Option<Timestamp>)>)
    ensures
        ({
            let newest = newest_change(files);
            &&& newest.seconds * 1_000_000_000 + newest.nanos >= 0
            &&& forall|i: int|
                0 <= i < files.len() && (#[trigger] files[i]).1 is Some ==> (
                files[i].1->0).seconds * 1_000_000_000 + (files[i].1->0).nanos <= newest.seconds
                    * 1_000_000_000 + newest.nanos
            &&& newest == (Timestamp { seconds: 0, nanos: 0 }) || exists|i: int|
                0 <= i < files.len() && (#[trigger] files[i]).1 == Some(newest)
            &&& files.len() == 0 ==> size_of_files(files) == 0
            &&& files.len() > 0 ==> size_of_files(files) == size_of_files(files.drop_last())
                + files[files.len() - 1].0
        }),
    decreases files.len(),
{
    if files.len() > 0 {
        let shorter = files.drop_last();
        law_a_session_is_as_new_as_its_newest_file(shorter);
        let before = newest_change(shorter);
        let newest = newest_change(files);
        assert forall|i: int| 0 <= i < files.len() && (#[trigger] files[i]).1 is Some implies (
        files[i].1->0).total() <= newest.total() by {
            if i < shorter.len() {
                assert(shorter[i] == files[i]);
            }
        }
        if newest == before && before != (Timestamp { seconds: 0, nanos: 0 }) {
            let i = choose|i: int|
                0 <= i < shorter.len() && (#[trigger] shorter[i]).1 == Some(before);
            assert(files[i].1 == Some(newest));
        } else if newest != before {
            assert(files[files.len() - 1].1 == Some(newest));
        }
    }
}

} // verus!
