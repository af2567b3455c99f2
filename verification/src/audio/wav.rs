//! What can go wrong with the stored recording.

use vstd::prelude::*;

use crate::text::concat3;

verus! {

/// Why a recording could not be written or read.
#[derive(Debug, Clone, PartialEq, Eq)]
pub enum WavError {
    Write { path: String, source: String },
    Read { path: String, source: String },
}

impl WavError {
    /// What the failure is called.
    pub open spec fn shown(self) -> Seq<char> {
        match self {
            WavError::Write { path, source } => "writing "@ + path@ + ": "@ + source@,
            WavError::Read { path, source } => "reading "@ + path@ + ": "@ + source@,
        }
    }

    /// The failure in words.
    pub fn to_text(&self) -> (result: String)
        ensures
            result@ == self.shown(),
    {
        match self {
            WavError::Write { path, source } => {
                let mut out = concat3("writing ", path.as_str(), ": ");
                out.append(source.as_str());
                out
            },
            WavError::Read { path, source } => {
                let mut out = concat3("reading ", path.as_str(), ": ");
                out.append(source.as_str());
                out
            },
        }
    }
}

} // verus!
