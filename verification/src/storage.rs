//! Where recordings land on disk.
//!
//! ```text
//! $XDG_DATA_HOME/voice-commander/
//! └── recordings/2026/09/11/20260911T144812Z-dictate-2hc8b/
//!     ├── audio.wav
//!     └── session.json
//! ```
//!
//! Dated directories rather than one flat pile: a year of push-to-talk is tens of thousands
//! of sessions, and a directory with that many entries is unpleasant to work with from a
//! shell and slow to list.

use vstd::prelude::*;

use crate::calendar::{civil, format_two, format_year};
use crate::clock::Timestamp;
use crate::paths::join;
use crate::session::SessionId;

verus! {

/// The directory tree for recordings.
#[derive(Debug, Clone, PartialEq, Eq)]
pub struct Storage {
    root: String,
}

/// Where the recordings below a data directory are.
pub open spec fn recordings_path(root: Seq<char>) -> Seq<char> {
    crate::paths::below(root, "recordings"@)
}

/// The directory of one session: filed by the UTC date it began on.
pub open spec fn session_path(root: Seq<char>, id: Seq<char>, at: Timestamp) -> Seq<char> {
    let c = crate::calendar::civil_of(at.seconds as int);
    crate::paths::below(
        crate::paths::below(
            crate::paths::below(
                crate::paths::below(recordings_path(root), crate::calendar::year_text(c.year as int)),
                crate::calendar::two(c.month),
            ),
            crate::calendar::two(c.day),
        ),
        id,
    )
}

/// Where recordings and logs are kept: where the caller says, else where the configuration
/// says, else in the standard place.
pub fn data_root(explicit: Option<String>, configured: Option<String>, standard: String) -> (result:
    String)
    ensures
        result == (match explicit {
            Some(path) => path,
            None => match configured {
                Some(path) => path,
                None => standard,
            },
        }),
{
    match explicit {
        Some(path) => path,
        None => match configured {
            Some(path) => path,
            None => standard,
        },
    }
}

/// The recording in a session directory.
pub open spec fn audio_of(session_dir: Seq<char>) -> Seq<char> {
    crate::paths::below(session_dir, "audio.wav"@)
}

/// A recording stands directly in its session directory.
pub(crate) proof fn lemma_audio_is_a_file_name()
    ensures
        crate::paths::is_file_name("audio.wav"@),
{
    reveal_strlit("audio.wav");
}

/// The recording in a session directory.
pub fn audio_path(session_dir: &str) -> (result: String)
    ensures
        result@ == audio_of(session_dir@),
{
    join(session_dir, "audio.wav")
}

/// The record in a session directory.
pub fn record_path(session_dir: &str) -> (result: String)
    ensures
        result@ == crate::paths::below(session_dir@, "session.json"@),
{
    join(session_dir, "session.json")
}

/// The event log in a data directory.
pub fn event_log_path(data_dir: &str) -> (result: String)
    ensures
        result@ == crate::paths::below(data_dir@, "events.jsonl"@),
{
    join(data_dir, "events.jsonl")
}

impl Storage {
    /// The data directory.
    pub closed spec fn root_spec(self) -> Seq<char> {
        self.root@
    }

    pub fn new(root: String) -> (result: Self)
        ensures
            result.root_spec() == root@,
    {
        Storage { root }
    }

    pub fn root(&self) -> (result: &str)
        ensures
            result@ == self.root_spec(),
    {
        self.root.as_str()
    }

    /// Where the recordings are.
    pub fn recordings_dir(&self) -> (result: String)
        ensures
            result@ == recordings_path(self.root_spec()),
    {
        join(self.root.as_str(), "recordings")
    }

    /// The directory for one session.
    pub fn session_dir(&self, id: &SessionId, at: Timestamp) -> (result: String)
        requires
            at.valid(),
        ensures
            result@ == session_path(self.root_spec(), id@, at),
    {
        let c = civil(at);
        let year = join(self.recordings_dir().as_str(), format_year(c.year).as_str());
        let month = join(year.as_str(), format_two(c.month).as_str());
        let day = join(month.as_str(), format_two(c.day).as_str());
        join(day.as_str(), id.as_str())
    }
}

/// A session's directory ends in its id, which ends plainly: what stands beside its recording
/// stands in this directory.
pub proof fn law_a_session_directory_ends_in_its_id(
    root: Seq<char>,
    at: Timestamp,
    profile: Seq<char>,
    nonce: u32,
)
    requires
        at.valid(),
    ensures
        ({
            let id = crate::session::id::id_text(at, profile, nonce);
            let path = session_path(root, id, at);
            &&& crate::paths::ends_plainly(path)
            &&& id.is_suffix_of(path)
        }),
{
    let id = crate::session::id::id_text(at, profile, nonce);
    crate::session::id::law_ids_stay_in_their_directory(at, profile, nonce);
    reveal_strlit("-");
    assert(id.len() > 0);
}

/// A session is filed under the day it began: below the recordings, in a directory for the
/// year, one for the month and one for the day, under its id.
pub proof fn law_a_session_is_filed_under_its_day(root: Seq<char>, at: Timestamp, id: Seq<char>)
    requires
        root.len() > 0,
        root.last() != '/',
        id.len() > 0,
        id[0] != '/',
        at.valid(),
        crate::calendar::civil_of(at.seconds as int).year >= 0,
    ensures
        ({
            let c = crate::calendar::civil_of(at.seconds as int);
            &&& recordings_path(root) == root + "/"@ + "recordings"@
            &&& session_path(root, id, at) == root + "/"@ + "recordings"@ + "/"@
                + crate::text::padded(c.year as nat, 4) + "/"@ + crate::text::padded(
                c.month as nat,
                2,
            ) + "/"@ + crate::text::padded(c.day as nat, 2) + "/"@ + id
            &&& audio_of(session_path(root, id, at)) == if id.last() == '/' {
                session_path(root, id, at) + "audio.wav"@
            } else {
                session_path(root, id, at) + "/"@ + "audio.wav"@
            }
        }),
{
    let c = crate::calendar::civil_of(at.seconds as int);
    reveal_strlit("recordings");
    reveal_strlit("audio.wav");
    let year = crate::text::padded(c.year as nat, 4);
    let month = crate::text::padded(c.month as nat, 2);
    let day = crate::text::padded(c.day as nat, 2);
    crate::text::law_padding_keeps_the_number(c.year as nat, 4);
    crate::text::law_padding_keeps_the_number(c.month as nat, 2);
    crate::text::law_padding_keeps_the_number(c.day as nat, 2);
    assert(year[0] <= '9' && '0' <= year[0] && month[0] <= '9' && '0' <= month[0] && day[0] <= '9'
        && '0' <= day[0]);
    let a = recordings_path(root);
    assert(a.last() == 's');
    let b = crate::paths::below(a, year);
    assert(b == a + "/"@ + year);
    assert(b.last() == year[year.len() - 1]);
    let d = crate::paths::below(b, month);
    assert(d == b + "/"@ + month);
    assert(d.last() == month[month.len() - 1]);
    let e = crate::paths::below(d, day);
    assert(e == d + "/"@ + day);
    assert(e.last() == day[day.len() - 1]);
    assert(crate::paths::below(e, id).last() == id.last());
}

} // verus!
