//! Configuration diagnostics.
//!
//! Loading reports *every* problem it can find rather than stopping at the first. Editing a
//! configuration file, running the daemon, fixing one typo and repeating is a miserable loop;
//! one pass that lists everything wrong is worth the small amount of extra machinery.

use vstd::prelude::*;

use crate::text::decimal_text;

verus! {

/// One thing wrong with, or worth mentioning about, a configuration.
#[derive(Debug, Clone, PartialEq, Eq)]
pub struct Issue {
    /// Dotted path to the offending key, e.g. `profiles.dictate.session.cooldown_ms`.
    pub path: String,
    pub message: String,
    /// What to do about it, when that is not obvious from the message.
    pub hint: Option<String>,
}

/// What an issue says.
pub struct IssueView {
    pub path: Seq<char>,
    pub message: Seq<char>,
    pub hint: Option<Seq<char>>,
}

/// An issue without a hint.
pub open spec fn issue(path: Seq<char>, message: Seq<char>) -> IssueView {
    IssueView { path, message, hint: None }
}

/// An issue with a hint.
pub open spec fn hinted(path: Seq<char>, message: Seq<char>, hint: Seq<char>) -> IssueView {
    IssueView { path, message, hint: Some(hint) }
}

impl View for Issue {
    type V = IssueView;

    open spec fn view(&self) -> IssueView {
        IssueView {
            path: self.path@,
            message: self.message@,
            hint: match self.hint {
                Some(hint) => Some(hint@),
                None => None,
            },
        }
    }
}

/// What a list of issues says.
pub open spec fn views(issues: Seq<Issue>) -> Seq<IssueView> {
    issues.map_values(|issue: Issue| issue@)
}

impl IssueView {
    /// The issue as it is shown to a person.
    pub open spec fn shown(self) -> Seq<char> {
        let line = self.path + ": "@ + self.message;
        match self.hint {
            Some(hint) => line + "\n    hint: "@ + hint,
            None => line,
        }
    }
}

impl Issue {
    pub fn new(path: String, message: String) -> (result: Self)
        ensures
            result@ == issue(path@, message@),
    {
        Issue { path, message, hint: None }
    }

    pub fn with_hint(self, hint: String) -> (result: Self)
        ensures
            result@ == (IssueView { hint: Some(hint@), ..self@ }),
    {
        Issue { path: self.path, message: self.message, hint: Some(hint) }
    }

    /// The issue as it is shown to a person.
    pub fn to_text(&self) -> (result: String)
        ensures
            result@ == self@.shown(),
    {
        let mut out = self.path.clone();
        out.append(": ");
        out.append(self.message.as_str());
        match &self.hint {
            Some(hint) => {
                out.append("\n    hint: ");
                out.append(hint.as_str());
            },
            None => {},
        }
        out
    }
}

/// Why a configuration could not be loaded.
#[derive(Debug, Clone, PartialEq, Eq)]
pub enum ConfigError {
    /// A file could not be read.
    Io { path: String, source: String },
    /// A layer was not valid TOML.
    Syntax { source_name: String, message: String },
    /// The TOML parsed, but does not describe a usable configuration.
    Invalid { issues: Vec<Issue> },
}

/// The issues of a list, each on a line of its own.
pub open spec fn listed(issues: Seq<IssueView>) -> Seq<char>
    decreases issues.len(),
{
    if issues.len() == 0 {
        Seq::empty()
    } else {
        listed(issues.drop_last()) + "\n  - "@ + issues.last().shown()
    }
}

impl ConfigError {
    /// The error as it is shown to a person.
    pub open spec fn shown(self) -> Seq<char> {
        match self {
            ConfigError::Io { path, source } => "reading "@ + path@ + ": "@ + source@,
            ConfigError::Syntax { source_name, message } => source_name@ + " is not valid TOML: "@
                + message@,
            ConfigError::Invalid { issues } => crate::text::decimal(issues@.len())
                + " configuration problem"@ + (if issues@.len() == 1 { ""@ } else { "s"@ }) + ":"@
                + listed(views(issues@)),
        }
    }

    /// The error as it is shown to a person.
    pub fn to_text(&self) -> (result: String)
        ensures
            result@ == self.shown(),
    {
        match self {
            ConfigError::Io { path, source } => {
                let mut out = "reading ".to_owned();
                out.append(path.as_str());
                out.append(": ");
                out.append(source.as_str());
                out
            },
            ConfigError::Syntax { source_name, message } => {
                let mut out = source_name.clone();
                out.append(" is not valid TOML: ");
                out.append(message.as_str());
                out
            },
            ConfigError::Invalid { issues } => {
                let mut out = decimal_text(issues.len() as u64);
                out.append(" configuration problem");
                if issues.len() == 1 {
                    out.append("");
                } else {
                    out.append("s");
                }
                out.append(":");
                let ghost head = out@;
                let ghost all = views(issues@);
                let mut i: usize = 0;
                assert(head + listed(all.take(0)) =~= head);
                while i < issues.len()
                    invariant
                        i <= issues.len(),
                        all == views(issues@),
                        out@ == head + listed(all.take(i as int)),
                    decreases issues.len() - i,
                {
                    out.append("\n  - ");
                    out.append(issues[i].to_text().as_str());
                    proof {
                        assert(all.take(i + 1).drop_last() =~= all.take(i as int));
                        assert(all.take(i + 1).last() == issues@[i as int]@);
                        assert(out@ =~= head + listed(all.take(i + 1)));
                    }
                    i += 1;
                }
                assert(all.take(i as int) =~= all);
                out
            },
        }
    }
}

/// Every problem is listed on a line of its own behind how many there are, in order; and an
/// issue shows where it is, what it is, and its hint if it has one.
pub proof fn law_every_issue_is_listed(issues: Seq<IssueView>, more: IssueView)
    ensures
        listed(Seq::empty()).len() == 0,
        listed(issues.push(more)) == listed(issues) + "\n  - "@ + more.shown(),
        more.hint is None ==> more.shown() == more.path + ": "@ + more.message,
        more.hint matches Some(hint) ==> more.shown() == more.path + ": "@ + more.message
            + "\n    hint: "@ + hint,
{
    assert(issues.push(more).drop_last() =~= issues);
}

} // verus!
