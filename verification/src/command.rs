//! Commands that run with a deadline: what to run, and what to make of what it did.

use vstd::prelude::*;

use crate::clock::{show_span, Span, NANOS_PER_SECOND};
use crate::names::Named;
use crate::text::{chars_of, concat, concat3, head, signed_text, text_of, trim};

verus! {

/// Why running a command failed.
///
/// A command that ran and exited non-zero is not an error here: that is a [`CommandOutput`]
/// with a status. This is for the cases where the program never got to run its own logic.
#[derive(Debug, Clone, PartialEq, Eq)]
pub enum ExecError {
    NotFound { program: String },
    Spawn { program: String, source: String },
    Empty,
    Io { program: String, source: String },
}

/// What a failure to run a command is called.
pub open spec fn exec_error_text(error: ExecError) -> Seq<char> {
    match error {
        ExecError::NotFound { program } => program@ + " is not on PATH or is not executable"@,
        ExecError::Spawn { program, source } => "could not start "@ + program@ + ": "@ + source@,
        ExecError::Empty => "the command was empty"@,
        ExecError::Io { program, source } => "reading the output of "@ + program@ + ": "@ + source@,
    }
}

impl ExecError {
    /// The failure in words.
    pub fn to_text(&self) -> (result: String)
        ensures
            result@ == exec_error_text(*self),
    {
        match self {
            ExecError::NotFound { program } => concat(
                program.as_str(),
                " is not on PATH or is not executable",
            ),
            ExecError::Spawn { program, source } => {
                let mut out = concat3("could not start ", program.as_str(), ": ");
                out.append(source.as_str());
                out
            },
            ExecError::Empty => "the command was empty".to_owned(),
            ExecError::Io { program, source } => {
                let mut out = concat3("reading the output of ", program.as_str(), ": ");
                out.append(source.as_str());
                out
            },
        }
    }

    /// What a program that could not be started is reported as.
    pub fn not_started(program: String, not_found: bool, source: String) -> (result: ExecError)
        ensures
            result == (if not_found {
                ExecError::NotFound { program }
            } else {
                ExecError::Spawn { program, source }
            }),
    {
        if not_found {
            ExecError::NotFound { program }
        } else {
            ExecError::Spawn { program, source }
        }
    }
}

/// What to run.
#[derive(Debug, Clone)]
pub struct CommandSpec {
    /// Argv, already token-expanded. `argv[0]` is the program.
    pub argv: Vec<String>,
    pub env: Named<String>,
    pub cwd: Option<String>,
    /// Written to the child's standard input, which is then closed.
    pub stdin: Option<String>,
    pub timeout: Span,
}

/// A path with a leading `~` or `~/` replaced by the home directory, when that is known.
///
/// `~user` is someone else's home directory and stays as it is.
pub open spec fn tilde_expanded(path: Seq<char>, home: Option<Seq<char>>) -> Seq<char> {
    if path.len() > 0 && path[0] == '~' && (path.len() == 1 || path[1] == '/') && home is Some {
        home->0 + path.skip(1)
    } else {
        path
    }
}

/// Expand a leading `~`, which users write in config files and processes do not understand.
/// `home` is the value of `$HOME`.
pub fn expand_tilde(path: &str, home: Option<&str>) -> (result: String)
    ensures
        result@ == tilde_expanded(
            path@,
            match home {
                Some(home) => Some(home@),
                None => None,
            },
        ),
{
    let chars = chars_of(path);
    if chars.len() == 0 || chars[0] != '~' || (chars.len() > 1 && chars[1] != '/') {
        return path.to_owned();
    }
    match home {
        Some(home) => {
            let rest = text_of(vstd::slice::slice_subrange(chars.as_slice(), 1, chars.len()));
            assert(rest@ =~= path@.skip(1));
            concat(home, rest.as_str())
        },
        None => path.to_owned(),
    }
}

/// What is handed to the operating system.
#[derive(Debug, Clone, PartialEq, Eq)]
pub struct Invocation {
    pub program: String,
    pub args: Vec<String>,
    pub cwd: Option<String>,
}

impl CommandSpec {
    pub fn new(argv: Vec<String>) -> (result: Self)
        ensures
            result.argv == argv,
            result.env@.len() == 0,
            result.cwd is None,
            result.stdin is None,
            result.timeout == (Span { seconds: 60, nanos: 0 }),
    {
        CommandSpec {
            argv,
            env: Named::new(),
            cwd: None,
            stdin: None,
            timeout: Span { seconds: 60, nanos: 0 },
        }
    }

    pub fn with_env(self, env: Named<String>) -> (result: Self)
        ensures
            result == (CommandSpec { env, ..self }),
    {
        let mut spec = self;
        spec.env = env;
        spec
    }

    pub fn with_cwd(self, cwd: Option<String>) -> (result: Self)
        ensures
            result == (CommandSpec { cwd, ..self }),
    {
        let mut spec = self;
        spec.cwd = cwd;
        spec
    }

    pub fn with_stdin(self, stdin: Option<String>) -> (result: Self)
        ensures
            result == (CommandSpec { stdin, ..self }),
    {
        let mut spec = self;
        spec.stdin = stdin;
        spec
    }

    pub fn with_timeout(self, timeout: Span) -> (result: Self)
        ensures
            result == (CommandSpec { timeout, ..self }),
    {
        let mut spec = self;
        spec.timeout = timeout;
        spec
    }

    /// The program, or nothing when there is none.
    pub fn program(&self) -> (result: &str)
        ensures
            result@ == (if self.argv@.len() == 0 {
                ""@
            } else {
                self.argv@[0]@
            }),
    {
        if self.argv.len() == 0 {
            ""
        } else {
            self.argv[0].as_str()
        }
    }

    /// What to hand to the operating system: the arguments go over one by one, and no shell
    /// comes between. `home` is the value of `$HOME`.
    pub fn invocation(&self, home: Option<&str>) -> (result: Result<Invocation, ExecError>)
        ensures
            match result {
                Ok(invocation) => {
                    let at_home = match home {
                        Some(home) => Some(home@),
                        None => None,
                    };
                    &&& self.argv@.len() > 0
                    &&& invocation.program@ == tilde_expanded(self.argv@[0]@, at_home)
                    &&& invocation.args@ == self.argv@.skip(1)
                    &&& crate::event::optional(invocation.cwd) == (match self.cwd {
                        Some(cwd) => Some(tilde_expanded(cwd@, at_home)),
                        None => None,
                    })
                },
                Err(error) => self.argv@.len() == 0 && error == ExecError::Empty,
            },
    {
        if self.argv.len() == 0 {
            return Err(ExecError::Empty);
        }
        let mut args: Vec<String> = Vec::new();
        let mut i: usize = 1;
        while i < self.argv.len()
            invariant
                1 <= i <= self.argv.len(),
                args@ == self.argv@.subrange(1, i as int),
            decreases self.argv.len() - i,
        {
            args.push(self.argv[i].clone());
            assert(self.argv@.subrange(1, i + 1) =~= self.argv@.subrange(1, i as int).push(
                self.argv@[i as int],
            ));
            i += 1;
        }
        assert(args@ =~= self.argv@.skip(1));
        Ok(
            Invocation {
                program: expand_tilde(self.argv[0].as_str(), home),
                args,
                cwd: match &self.cwd {
                    Some(cwd) => Some(expand_tilde(cwd.as_str(), home)),
                    None => None,
                },
            },
        )
    }
}

/// What a command did.
#[derive(Debug, Clone, PartialEq, Eq)]
pub struct CommandOutput {
    /// Exit status, or nothing if it was killed by a signal or by the deadline.
    pub status: Option<i32>,
    pub stdout: String,
    pub stderr: String,
    pub timed_out: bool,
    pub elapsed: Span,
}

/// The one-line summary of what a command did.
pub open spec fn failure_text(output: CommandOutput) -> Seq<char> {
    let complaint = crate::text::trimmed(output.stderr@);
    if output.timed_out {
        "timed out after "@ + crate::clock::span_text(output.elapsed.seconds, output.elapsed.nanos)
    } else if complaint.len() > 0 {
        crate::text::first_line(complaint)
    } else {
        match output.status {
            Some(code) => "exited with status "@ + crate::text::signed(code as int),
            None => "killed by a signal"@,
        }
    }
}

impl CommandOutput {
    /// What a command that outlived its deadline did.
    pub fn overdue(elapsed: Span) -> (result: CommandOutput)
        ensures
            result.status is None,
            result.stdout@ == ""@,
            result.stderr@ == ""@,
            result.timed_out,
            result.elapsed == elapsed,
    {
        CommandOutput {
            status: None,
            stdout: "".to_owned(),
            stderr: "".to_owned(),
            timed_out: true,
            elapsed,
        }
    }

    pub fn succeeded(&self) -> (result: bool)
        ensures
            result == (self.status == Some(0i32) && !self.timed_out),
    {
        match self.status {
            Some(code) => code == 0 && !self.timed_out,
            None => false,
        }
    }

    /// A one-line summary suitable for an error message.
    ///
    /// Prefers the child's own stderr, because a script that explains its own failure is more
    /// useful than "exited with status 1", and falls back to the status when it said nothing.
    pub fn failure_reason(&self) -> (result: String)
        requires
            self.elapsed.nanos < NANOS_PER_SECOND,
        ensures
            result@ == failure_text(*self),
    {
        if self.timed_out {
            return concat("timed out after ", show_span(self.elapsed).as_str());
        }
        let complaint = trim(self.stderr.as_str());
        if !complaint.as_str().is_empty() {
            return head(complaint.as_str());
        }
        match self.status {
            Some(code) => concat("exited with status ", signed_text(code).as_str()),
            None => "killed by a signal".to_owned(),
        }
    }
}

/// Arguments reach the child as they were: what came out of a microphone cannot become a
/// second argument, let alone a second command.
pub proof fn law_arguments_are_passed_one_by_one(argv: Seq<String>, i: int)
    requires
        1 <= i < argv.len(),
    ensures
        argv.skip(1).len() == argv.len() - 1,
        argv.skip(1)[i - 1] == argv[i],
{
}

/// A tilde stands for the home directory alone or before a separator, and only at the start;
/// every other path stays as it is.
pub proof fn law_a_leading_tilde_is_the_home_directory(
    path: Seq<char>,
    rest: Seq<char>,
    home: Seq<char>,
)
    ensures
        tilde_expanded(seq!['~'], Some(home)) == home,
        tilde_expanded(seq!['~', '/'] + rest, Some(home)) == home + seq!['/'] + rest,
        tilde_expanded(path, None) == path,
        path.len() == 0 || path[0] != '~' ==> tilde_expanded(path, Some(home)) == path,
        path.len() > 1 && path[1] != '/' ==> tilde_expanded(path, Some(home)) == path,
{
    assert(home + seq!['~'].skip(1) =~= home);
    assert(home + (seq!['~', '/'] + rest).skip(1) =~= home + seq!['/'] + rest);
}

/// A failure is put down to the time limit first, then to what the command complained of, and
/// only then to how it ended.
pub proof fn law_a_failure_says_the_most_it_can(output: CommandOutput)
    ensures
        ({
            let complaint = crate::text::trimmed(output.stderr@);
            let shown = failure_text(output);
            &&& output.timed_out ==> shown == "timed out after "@ + crate::clock::span_text(
                output.elapsed.seconds,
                output.elapsed.nanos,
            )
            &&& !output.timed_out && complaint.len() > 0 ==> shown == crate::text::first_line(
                complaint,
            )
            &&& !output.timed_out && complaint.len() == 0 && output.status is Some ==> shown
                == "exited with status "@ + crate::text::signed((output.status->0) as int)
            &&& !output.timed_out && complaint.len() == 0 && output.status is None ==> shown
                == "killed by a signal"@
        }),
{
}

} // verus!
