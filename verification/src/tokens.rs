//! Substituting session values into user-written commands, paths and templates.
//!
//! This is the interface between a recording and whatever the user asked to be done with it.
//! It is deliberately dumb: `{audio_path}` becomes a path and nothing else happens. No shell
//! is involved, and substitution happens per argument, so a path containing a space cannot
//! turn into two arguments and a transcript containing `;` cannot turn into a second command.

use vstd::prelude::*;

use crate::calendar::{civil, format_date, format_rfc3339};
use crate::names::Named;
use crate::session::SessionRecord;
use crate::text::{chars_of, concat, contains_name, decimal_text, push_char, text_of, uppercase};

verus! {

/// Every token name that can appear, for documentation and for validation.
pub fn token_names() -> (result: [&'static str; 10])
    ensures
        result@.map_values(|s: &'static str| s@) == documented_tokens(),
{
    let names = [
        "audio_path",
        "text_path",
        "text",
        "session_id",
        "session_dir",
        "profile",
        "duration_ms",
        "started_at",
        "date",
        "language",
    ];
    assert(names@.map_values(|s: &'static str| s@) =~= documented_tokens());
    names
}

/// Every token name that can appear.
pub open spec fn documented_tokens() -> Seq<Seq<char>> {
    seq![
        "audio_path"@,
        "text_path"@,
        "text"@,
        "session_id"@,
        "session_dir"@,
        "profile"@,
        "duration_ms"@,
        "started_at"@,
        "date"@,
        "language"@,
    ]
}

/// The text under `name`, if there is one.
pub open spec fn text_under(values: Seq<(String, String)>, name: Seq<char>) -> Option<Seq<char>> {
    match crate::names::lookup(values, name) {
        Some(value) => Some(value@),
        None => None,
    }
}

/// Whether a character may stand in a token name: lowercase letters, digits and underscores,
/// which is what every real token is made of, and what nothing in a JSON object or a shell
/// brace expansion looks like.
pub open spec fn is_name_char(c: char) -> bool {
    crate::text::is_plain_char(c)
}

/// How many characters at the start of `text` may stand in a token name.
pub open spec fn name_run(text: Seq<char>) -> nat
    decreases text.len(),
{
    if text.len() > 0 && is_name_char(text[0]) {
        1 + name_run(text.drop_first())
    } else {
        0
    }
}

/// The length of the name of the token at the start of `text`, if there is a token there.
pub open spec fn token_name_len(text: Seq<char>) -> Option<nat> {
    if text.len() > 0 && text[0] == '{' {
        let run = name_run(text.drop_first());
        if run > 0 && run + 1 < text.len() && text[run as int + 1] == '}' {
            Some(run)
        } else {
            None
        }
    } else {
        None
    }
}

/// A template with its tokens replaced. What has no value, or is no token, stays as written.
pub open spec fn expanded(values: Seq<(String, String)>, template: Seq<char>) -> Seq<char>
    decreases template.len(),
{
    if template.len() == 0 {
        Seq::empty()
    } else {
        match token_name_len(template) {
            Some(n) => {
                let name = template.subrange(1, n as int + 1);
                let replacement = match text_under(values, name) {
                    Some(value) => value,
                    None => template.take(n as int + 2),
                };
                replacement + expanded(values, template.skip(n as int + 2))
            },
            None => seq![template[0]] + expanded(values, template.drop_first()),
        }
    }
}

/// Names that look like tokens of `template` and have no value, in order of appearance, each
/// once, after those already found.
pub open spec fn unknown_names(
    values: Seq<(String, String)>,
    template: Seq<char>,
    found: Seq<Seq<char>>,
) -> Seq<Seq<char>>
    decreases template.len(),
{
    if template.len() == 0 {
        found
    } else {
        match token_name_len(template) {
            Some(n) => {
                let name = template.subrange(1, n as int + 1);
                let more = if text_under(values, name) is None && !found.contains(name) {
                    found.push(name)
                } else {
                    found
                };
                unknown_names(values, template.skip(n as int + 2), more)
            },
            None => unknown_names(values, template.drop_first(), found),
        }
    }
}

/// The environment variable a token becomes.
pub open spec fn env_name(token: Seq<char>) -> Seq<char> {
    "VC_"@ + crate::text::uppercased(token)
}

/// The environment variable that a token of a plain name becomes.
pub open spec fn plain_env_name(token: Seq<char>) -> Seq<char> {
    "VC_"@ + crate::text::raised(token)
}

/// Whether only plain names have a value.
pub open spec fn plainly_named(values: Seq<(String, String)>) -> bool {
    forall|name: Seq<char>| #[trigger]
        crate::names::lookup(values, name) is Some ==> crate::text::is_plain(name)
}

/// The value that the last of `values` whose variable is `variable` gives it.
pub open spec fn env_value(values: Seq<(String, String)>, variable: Seq<char>) -> Option<String>
    decreases values.len(),
{
    if values.len() == 0 {
        None
    } else if env_name(values.last().0@) == variable {
        Some(values.last().1)
    } else {
        env_value(values.drop_last(), variable)
    }
}

/// A text, or the empty text in place of none.
pub open spec fn or_empty(text: Option<Seq<char>>) -> Seq<char> {
    match text {
        Some(text) => text,
        None => Seq::empty(),
    }
}

/// The values available to a template.
#[derive(Debug, Clone, PartialEq, Eq)]
pub struct Tokens {
    values: Named<String>,
}

impl View for Tokens {
    type V = Seq<(String, String)>;

    closed spec fn view(&self) -> Seq<(String, String)> {
        self.values@
    }
}

impl Default for Tokens {
    fn default() -> (result: Self)
        ensures
            result@ == Seq::<(String, String)>::empty(),
    {
        Tokens { values: Named::new() }
    }
}

impl Tokens {
    /// Build the token set for a finished session.
    ///
    /// `text` and `text_path` are absent when the profile had no transcriber: the tokens
    /// still exist, and expand to nothing, so a command written for a profile with
    /// transcription does not break when pointed at one without it.
    pub fn for_session(record: &SessionRecord, text: Option<&str>, text_path: Option<&str>) -> (result:
        Self)
        requires
            record.started_at.valid(),
        ensures
            text_under(result@, "audio_path"@) == Some(record.audio.path@),
            text_under(result@, "text_path"@) == Some(
                match text_path {
                    Some(path) => path@,
                    None => Seq::empty(),
                },
            ),
            text_under(result@, "text"@) == Some(
                match text {
                    Some(text) => text@,
                    None => Seq::empty(),
                },
            ),
            text_under(result@, "session_id"@) == Some(record.id@),
            text_under(result@, "session_dir"@) == Some(
                or_empty(crate::paths::parent_path(record.audio.path@)),
            ),
            forall|session_dir: Seq<char>| #[trigger]
                crate::storage::audio_of(session_dir) == record.audio.path@
                    && crate::paths::ends_plainly(session_dir) ==> text_under(
                    result@,
                    "session_dir"@,
                ) == Some(session_dir),
            text_under(result@, "profile"@) == Some(record.profile@),
            text_under(result@, "duration_ms"@) == Some(
                crate::text::decimal(record.audio.duration_ms as nat),
            ),
            text_under(result@, "started_at"@) == Some(
                or_empty(crate::calendar::rfc3339_text(record.started_at)),
            ),
            text_under(result@, "date"@) == Some(
                crate::calendar::date_text(
                    crate::calendar::civil_of(record.started_at.seconds as int),
                ),
            ),
            text_under(result@, "language"@) == Some(
                match record.transcript {
                    Some(transcript) => match transcript.language {
                        Some(language) => language@,
                        None => Seq::empty(),
                    },
                    None => Seq::empty(),
                },
            ),
            forall|name: Seq<char>|
                !documented_tokens().contains(name) ==> #[trigger] text_under(result@, name) is None,
    {
        let session_dir: String = match crate::paths::parent(record.audio.path.as_str()) {
            Some(dir) => dir,
            None => String::new(),
        };
        let started: String = match format_rfc3339(record.started_at) {
            Some(text) => text,
            None => String::new(),
        };
        let language: String = match &record.transcript {
            Some(transcript) => match &transcript.language {
                Some(language) => language.clone(),
                None => String::new(),
            },
            None => String::new(),
        };
        let date = format_date(civil(record.started_at));
        let mut values: Named<String> = Named::new();
        values.insert("audio_path".to_owned(), record.audio.path.clone());
        values.insert("text_path".to_owned(), owned_or_empty(text_path));
        values.insert("text".to_owned(), owned_or_empty(text));
        values.insert("session_id".to_owned(), record.id.as_str().to_owned());
        values.insert("session_dir".to_owned(), session_dir);
        values.insert("profile".to_owned(), record.profile.clone());
        values.insert("duration_ms".to_owned(), decimal_text(record.audio.duration_ms));
        values.insert("started_at".to_owned(), started);
        values.insert("date".to_owned(), date);
        values.insert("language".to_owned(), language);
        proof {
            lemma_token_names_differ();
            crate::storage::lemma_audio_is_a_file_name();
            let names = documented_tokens();
            assert forall|name: Seq<char>| !names.contains(name) implies #[trigger] text_under(
                values@,
                name,
            ) is None by {
                assert(forall|i: int| 0 <= i < names.len() ==> names[i] != name);
                assert(names[0] != name && names[1] != name && names[2] != name && names[3] != name
                    && names[4] != name && names[5] != name && names[6] != name && names[7] != name
                    && names[8] != name && names[9] != name);
            }
        }
        Tokens { values }
    }

    /// Override or add a value, for tokens a caller knows better than the record does.
    pub fn set(&mut self, name: &str, value: String)
        ensures
            forall|other: Seq<char>| #[trigger]
                text_under(final(self)@, other) == (if other == name@ {
                    Some(value@)
                } else {
                    text_under(old(self)@, other)
                }),
    {
        self.values.insert(name.to_owned(), value);
    }

    pub fn get(&self, name: &str) -> (result: Option<&str>)
        ensures
            match result {
                Some(value) => text_under(self@, name@) == Some(value@),
                None => text_under(self@, name@) is None,
            },
    {
        match self.values.get(name) {
            Some(value) => Some(value.as_str()),
            None => None,
        }
    }

    /// Replace `{token}` occurrences.
    ///
    /// Unknown tokens are left exactly as written rather than blanked. A shell script or a
    /// JSON body template may legitimately contain braces, and silently emptying something
    /// that merely looks like a token would corrupt it. [`Tokens::unknown_in`] exists so a
    /// caller can still warn about a likely typo.
    pub fn expand(&self, template: &str) -> (result: String)
        ensures
            result@ == expanded(self@, template@),
    {
        let chars = chars_of(template);
        let mut out = String::new();
        let mut i: usize = 0;
        assert(chars@.skip(0) =~= template@);
        assert(out@ + expanded(self@, chars@.skip(0)) =~= expanded(self@, template@));
        while i < chars.len()
            invariant
                i <= chars.len(),
                out@ + expanded(self@, chars@.skip(i as int)) == expanded(self@, template@),
            decreases chars.len() - i,
        {
            let ghost rest = chars@.skip(i as int);
            let ghost done = out@;
            match token_at(&chars, i) {
                Some(n) => {
                    let name = slice_text(&chars, i + 1, i + 1 + n);
                    let ghost tail = expanded(self@, rest.skip(n as int + 2));
                    assert(rest.subrange(1, n as int + 1) =~= name@);
                    assert(rest.skip(n as int + 2) =~= chars@.skip(i + n + 2));
                    match self.values.get(name.as_str()) {
                        Some(value) => {
                            out.append(value.as_str());
                            assert(out@ + tail =~= done + (value@ + tail));
                        },
                        None => {
                            let written = slice_text(&chars, i, i + n + 2);
                            out.append(written.as_str());
                            assert(written@ =~= rest.take(n as int + 2));
                            assert(out@ + tail =~= done + (written@ + tail));
                        },
                    }
                    i = i + n + 2;
                },
                None => {
                    push_char(&mut out, chars[i]);
                    proof {
                        let tail = expanded(self@, rest.drop_first());
                        assert(rest.drop_first() =~= chars@.skip(i + 1));
                        assert(out@ + tail =~= done + (seq![rest[0]] + tail));
                    }
                    i += 1;
                },
            }
        }
        proof {
            assert(chars@.skip(i as int) =~= Seq::<char>::empty());
            assert(out@ + Seq::<char>::empty() =~= out@);
        }
        out
    }

    /// Expand each argument separately.
    ///
    /// Per-argument is the whole point: a transcript is untrusted text that came out of a
    /// microphone, and expanding a whole command line as one string before splitting it
    /// would let "delete everything; rm -rf /" become two commands.
    pub fn expand_args(&self, args: &[String]) -> (result: Vec<String>)
        ensures
            result@.len() == args@.len(),
            forall|i: int|
                0 <= i < args@.len() ==> (#[trigger] result@[i])@ == expanded(self@, args@[i]@),
    {
        let mut out: Vec<String> = Vec::new();
        let mut i: usize = 0;
        while i < args.len()
            invariant
                i <= args.len(),
                out@.len() == i,
                forall|j: int| 0 <= j < i ==> (#[trigger] out@[j])@ == expanded(self@, args@[j]@),
            decreases args.len() - i,
        {
            out.push(self.expand(args[i].as_str()));
            i += 1;
        }
        out
    }

    /// Token-looking names in `template` that this set has no value for.
    pub fn unknown_in(&self, template: &str) -> (result: Vec<String>)
        ensures
            crate::text::texts(result@) == unknown_names(self@, template@, Seq::empty()),
    {
        let chars = chars_of(template);
        let mut unknown: Vec<String> = Vec::new();
        let mut i: usize = 0;
        assert(chars@.skip(0) =~= template@);
        assert(crate::text::texts(unknown@) =~= Seq::empty());
        while i < chars.len()
            invariant
                i <= chars.len(),
                unknown_names(self@, chars@.skip(i as int), crate::text::texts(unknown@))
                    == unknown_names(self@, template@, Seq::empty()),
            decreases chars.len() - i,
        {
            let ghost rest = chars@.skip(i as int);
            match token_at(&chars, i) {
                Some(n) => {
                    let name = slice_text(&chars, i + 1, i + 1 + n);
                    assert(rest.subrange(1, n as int + 1) =~= name@);
                    assert(rest.skip(n as int + 2) =~= chars@.skip(i + n + 2));
                    if self.values.get(name.as_str()).is_none() && !contains_name(
                        &unknown,
                        name.as_str(),
                    ) {
                        let ghost found = crate::text::texts(unknown@);
                        unknown.push(name);
                        assert(crate::text::texts(unknown@) =~= found.push(name@));
                    }
                    i = i + n + 2;
                },
                None => {
                    assert(rest.drop_first() =~= chars@.skip(i + 1));
                    i += 1;
                },
            }
        }
        assert(chars@.skip(i as int) =~= Seq::<char>::empty());
        unknown
    }

    /// The environment variables a child process receives, `VC_`-prefixed.
    ///
    /// The same values as the tokens, so a simple script can use `$1` and a more involved one
    /// can read `$VC_TEXT` without the caller having to choose for them.
    pub fn env(&self) -> (result: Named<String>)
        ensures
            forall|variable: Seq<char>| #[trigger]
                crate::names::lookup(result@, variable) == env_value(self@, variable),
            plainly_named(self@) ==> forall|name: Seq<char>|
                crate::text::is_plain(name) ==> crate::names::lookup(
                    result@,
                    plain_env_name(name),
                ) == #[trigger] crate::names::lookup(self@, name),
    {
        let mut out: Named<String> = Named::new();
        let entries = self.values.entries();
        let mut i: usize = 0;
        while i < entries.len()
            invariant
                i <= entries.len(),
                entries@ == self@,
                forall|j: int|
                    0 <= j < i && crate::text::is_plain((#[trigger] self@[j]).0@) ==> env_name(
                        self@[j].0@,
                    ) == plain_env_name(self@[j].0@),
                forall|variable: Seq<char>| #[trigger]
                    crate::names::lookup(out@, variable) == env_value(
                        self@.take(i as int),
                        variable,
                    ),
            decreases entries.len() - i,
        {
            let variable = concat("VC_", uppercase(entries[i].0.as_str()).as_str());
            out.insert(variable, entries[i].1.clone());
            assert(self@.take(i + 1).drop_last() =~= self@.take(i as int));
            assert(self@.take(i + 1).last() == self@[i as int]);
            i += 1;
        }
        proof {
            assert(self@.take(i as int) =~= self@);
            if plainly_named(self@) {
                assert forall|j: int| 0 <= j < self@.len() implies crate::text::is_plain(
                    (#[trigger] self@[j]).0@,
                ) by {
                    crate::names::lemma_lookup_at(self@, j);
                }
                assert forall|name: Seq<char>| crate::text::is_plain(name) implies env_value(
                    self@,
                    plain_env_name(name),
                ) == #[trigger] crate::names::lookup(self@, name) by {
                    lemma_env_value(self@, self@, name);
                }
            }
        }
        out
    }
}

/// The last entry whose variable is that of a plain name is the only one of that name.
proof fn lemma_env_value(values: Seq<(String, String)>, front: Seq<(String, String)>, name: Seq<char>)
    requires
        crate::names::ascending(values),
        front.len() <= values.len(),
        front == values.take(front.len() as int),
        crate::text::is_plain(name),
        forall|j: int| #![trigger values[j]]
            0 <= j < values.len() ==> crate::text::is_plain(values[j].0@) && env_name(
                values[j].0@,
            ) == plain_env_name(values[j].0@),
        forall|j: int| front.len() <= j < values.len() ==> (#[trigger] values[j]).0@ != name,
    ensures
        env_value(front, plain_env_name(name)) == crate::names::lookup(values, name),
    decreases front.len(),
{
    if front.len() == 0 {
        crate::names::lemma_lookup_has(values, name);
    } else {
        let last = front.len() - 1;
        assert(front.last() == values[last]);
        law_two_tokens_get_two_variables(values[last].0@, name);
        if values[last].0@ == name {
            crate::names::lemma_lookup_at(values, last);
        } else {
            assert(front.drop_last() =~= values.take(last));
            lemma_env_value(values, front.drop_last(), name);
        }
    }
}

/// Tokens of different names become different environment variables.
pub proof fn law_two_tokens_get_two_variables(one: Seq<char>, other: Seq<char>)
    requires
        crate::text::is_plain(one),
        crate::text::is_plain(other),
    ensures
        plain_env_name(one) == plain_env_name(other) <==> one == other,
{
    if plain_env_name(one) == plain_env_name(other) {
        let a = crate::text::raised(one);
        let b = crate::text::raised(other);
        assert(plain_env_name(one).skip("VC_"@.len() as int) =~= a);
        assert(plain_env_name(other).skip("VC_"@.len() as int) =~= b);
        assert(a.len() == one.len() && b.len() == other.len());
        assert forall|i: int| 0 <= i < one.len() implies one[i] == other[i] by {
            assert(crate::text::is_plain_char(one[i]));
            assert(crate::text::is_plain_char(other[i]));
            assert(a[i] == crate::text::raised_char(one[i]));
            assert(b[i] == crate::text::raised_char(other[i]));
        }
        assert(one =~= other);
    }
}

/// Every documented token has a plain name, and with it an environment variable of its own.
pub proof fn law_documented_tokens_are_plain(i: int)
    requires
        0 <= i < documented_tokens().len(),
    ensures
        crate::text::is_plain(documented_tokens()[i]),
{
    reveal_strlit("audio_path");
    reveal_strlit("text_path");
    reveal_strlit("text");
    reveal_strlit("session_id");
    reveal_strlit("session_dir");
    reveal_strlit("profile");
    reveal_strlit("duration_ms");
    reveal_strlit("started_at");
    reveal_strlit("date");
    reveal_strlit("language");
}

fn owned_or_empty(text: Option<&str>) -> (result: String)
    ensures
        result@ == (match text {
            Some(text) => text@,
            None => Seq::empty(),
        }),
{
    match text {
        Some(text) => text.to_owned(),
        None => String::new(),
    }
}

/// The text of `chars` from `from` up to `to`.
pub(crate) fn slice_text(chars: &Vec<char>, from: usize, to: usize) -> (result: String)
    requires
        from <= to <= chars.len(),
    ensures
        result@ == chars@.subrange(from as int, to as int),
{
    let mut out = String::new();
    let mut i: usize = from;
    while i < to
        invariant
            from <= i <= to,
            to <= chars.len(),
            out@ == chars@.subrange(from as int, i as int),
        decreases to - i,
    {
        push_char(&mut out, chars[i]);
        assert(out@ =~= chars@.subrange(from as int, i + 1));
        i += 1;
    }
    out
}

/// Whether a character may stand in a token name.
fn name_char(c: char) -> (result: bool)
    ensures
        result == is_name_char(c),
{
    ('a' <= c && c <= 'z') || ('0' <= c && c <= '9') || c == '_'
}

/// The length of the name of the token at position `at`, if there is a token there.
///
/// Being strict here is what lets `{"text": "{text}"}` expand the inner token instead of the
/// outer brace swallowing it.
fn token_at(chars: &Vec<char>, at: usize) -> (result: Option<usize>)
    requires
        at < chars.len(),
    ensures
        match result {
            Some(n) => token_name_len(chars@.skip(at as int)) == Some(n as nat) && at + n + 2
                <= chars.len(),
            None => token_name_len(chars@.skip(at as int)) is None,
        },
{
    if chars[at] != '{' {
        return None;
    }
    let mut n: usize = 0;
    let ghost inner = chars@.skip(at as int).drop_first();
    assert(inner.skip(0) =~= inner);
    while at + 1 + n < chars.len() && name_char(chars[at + 1 + n])
        invariant
            at + 1 + n <= chars.len(),
            inner == chars@.skip(at as int).drop_first(),
            name_run(inner) == n + name_run(inner.skip(n as int)),
        decreases chars.len() - n,
    {
        assert(inner.skip(n as int).drop_first() =~= inner.skip(n + 1));
        n += 1;
    }
    assert(name_run(inner) == n);
    if n > 0 && at + 1 + n < chars.len() && chars[at + 1 + n] == '}' {
        Some(n)
    } else {
        None
    }
}

proof fn lemma_token_names_differ()
    ensures
        documented_tokens().no_duplicates(),
{
    reveal_strlit("audio_path");
    reveal_strlit("text_path");
    reveal_strlit("text");
    reveal_strlit("session_id");
    reveal_strlit("session_dir");
    reveal_strlit("profile");
    reveal_strlit("duration_ms");
    reveal_strlit("started_at");
    reveal_strlit("date");
    reveal_strlit("language");
    let names = documented_tokens();
    assert(names[0].len() == 10 && names[1].len() == 9 && names[2].len() == 4 && names[3].len()
        == 10 && names[4].len() == 11 && names[5].len() == 7 && names[6].len() == 11
        && names[7].len() == 10 && names[8].len() == 4 && names[9].len() == 8);
    assert(names[0][0] == 'a' && names[3][1] == 'e' && names[7][1] == 't' && names[7][0] == 's'
        && names[3][0] == 's');
    assert(names[4][0] == 's' && names[6][0] == 'd');
    assert(names[2][0] == 't' && names[8][0] == 'd');
}

// ── what substitution promises ──────────────────────────────────────────────

/// Text without an opening brace is left exactly as it is.
pub proof fn law_text_without_braces_is_unchanged(
    values: Seq<(String, String)>,
    template: Seq<char>,
)
    requires
        !template.contains('{'),
    ensures
        expanded(values, template) == template,
    decreases template.len(),
{
    if template.len() > 0 {
        assert(template[0] != '{');
        assert forall|i: int| 0 <= i < template.drop_first().len() implies template.drop_first()[i]
            != '{' by {
            assert(template[i + 1] != '{');
        }
        law_text_without_braces_is_unchanged(values, template.drop_first());
        assert(seq![template[0]] + template.drop_first() =~= template);
    } else {
        assert(template =~= Seq::empty());
    }
}

/// The names of the tokens of a template, in order of appearance.
pub open spec fn tokens_of(template: Seq<char>) -> Seq<Seq<char>>
    decreases template.len(),
{
    if template.len() == 0 {
        Seq::empty()
    } else {
        match token_name_len(template) {
            Some(n) => seq![template.subrange(1, n as int + 1)] + tokens_of(
                template.skip(n as int + 2),
            ),
            None => tokens_of(template.drop_first()),
        }
    }
}

/// A template none of whose tokens has a value is left exactly as it is: an unknown token is
/// never blanked.
pub proof fn law_unknown_tokens_are_left_alone(values: Seq<(String, String)>, template: Seq<char>)
    requires
        forall|i: int|
            0 <= i < tokens_of(template).len() ==> text_under(
                values,
                #[trigger] tokens_of(template)[i],
            ) is None,
    ensures
        expanded(values, template) == template,
    decreases template.len(),
{
    if template.len() == 0 {
        assert(template =~= Seq::empty());
    } else {
        match token_name_len(template) {
            Some(n) => {
                let rest = template.skip(n as int + 2);
                assert(tokens_of(template)[0] == template.subrange(1, n as int + 1));
                assert forall|i: int| 0 <= i < tokens_of(rest).len() implies text_under(
                    values,
                    #[trigger] tokens_of(rest)[i],
                ) is None by {
                    assert(tokens_of(template)[i + 1] == tokens_of(rest)[i]);
                }
                law_unknown_tokens_are_left_alone(values, rest);
                assert(template.take(n as int + 2) + rest =~= template);
            },
            None => {
                assert(tokens_of(template) == tokens_of(template.drop_first()));
                law_unknown_tokens_are_left_alone(values, template.drop_first());
                assert(seq![template[0]] + template.drop_first() =~= template);
            },
        }
    }
}

/// What is reported as unknown is exactly what looks like a token and has no value.
pub proof fn law_the_unknown_is_what_has_no_value(
    values: Seq<(String, String)>,
    template: Seq<char>,
    name: Seq<char>,
)
    ensures
        unknown_names(values, template, Seq::empty()).contains(name) <==> tokens_of(
            template,
        ).contains(name) && text_under(values, name) is None,
{
    lemma_unknown_names(values, template, Seq::empty(), name);
}

proof fn lemma_unknown_names(
    values: Seq<(String, String)>,
    template: Seq<char>,
    found: Seq<Seq<char>>,
    name: Seq<char>,
)
    ensures
        unknown_names(values, template, found).contains(name) <==> found.contains(name)
            || tokens_of(template).contains(name) && text_under(values, name) is None,
    decreases template.len(),
{
    broadcast use vstd::seq_lib::group_seq_properties;

    if template.len() > 0 {
        match token_name_len(template) {
            Some(n) => {
                let token = template.subrange(1, n as int + 1);
                let more = if text_under(values, token) is None && !found.contains(token) {
                    found.push(token)
                } else {
                    found
                };
                lemma_unknown_names(values, template.skip(n as int + 2), more, name);
                let rest = tokens_of(template.skip(n as int + 2));
                assert((seq![token] + rest).contains(name) <==> token == name || rest.contains(
                    name,
                )) by {
                    if token == name {
                        assert((seq![token] + rest)[0] == name);
                    }
                    if rest.contains(name) {
                        let i = rest.index_of(name);
                        assert((seq![token] + rest)[i + 1] == name);
                    }
                }
            },
            None => {
                lemma_unknown_names(values, template.drop_first(), found, name);
            },
        }
    }
}

/// A token that has a value becomes exactly that value, wherever it stands and whatever the
/// value looks like: the braces around it do not swallow it, what stands before and after it
/// is substituted on its own, and what has been substituted is not scanned again.
pub proof fn law_a_token_becomes_its_value(
    values: Seq<(String, String)>,
    front: Seq<char>,
    name: Seq<char>,
    value: Seq<char>,
    rest: Seq<char>,
)
    requires
        name.len() > 0,
        name_run(name) == name.len(),
        text_under(values, name) == Some(value),
    ensures
        expanded(values, front + (seq!['{'] + name + seq!['}'] + rest)) == expanded(values, front)
            + value + expanded(values, rest),
{
    let template = seq!['{'] + name + seq!['}'] + rest;
    lemma_a_brace_starts_afresh(values, front, template);
    assert(template.drop_first() =~= name + (seq!['}'] + rest));
    lemma_run_within(name, seq!['}'] + rest);
    assert(token_name_len(template) == Some(name.len()));
    assert(template.subrange(1, name.len() as int + 1) =~= name);
    assert(template.skip(name.len() as int + 2) =~= rest);
    assert(expanded(values, front) + (value + expanded(values, rest)) =~= expanded(values, front)
        + value + expanded(values, rest));
}

/// No token reaches across an opening brace.
proof fn lemma_a_brace_starts_afresh(
    values: Seq<(String, String)>,
    front: Seq<char>,
    rest: Seq<char>,
)
    requires
        rest.len() > 0,
        rest[0] == '{',
    ensures
        expanded(values, front + rest) == expanded(values, front) + expanded(values, rest),
    decreases front.len(),
{
    let whole = front + rest;
    if front.len() == 0 {
        assert(whole =~= rest);
        assert(Seq::<char>::empty() + expanded(values, rest) =~= expanded(values, rest));
    } else {
        assert(whole.drop_first() =~= front.drop_first() + rest);
        lemma_run_within(front.drop_first(), rest);
        assert(token_name_len(whole) == token_name_len(front));
        match token_name_len(front) {
            Some(n) => {
                let after = front.skip(n as int + 2);
                assert(whole.skip(n as int + 2) =~= after + rest);
                assert(whole.subrange(1, n as int + 1) =~= front.subrange(1, n as int + 1));
                assert(whole.take(n as int + 2) =~= front.take(n as int + 2));
                lemma_a_brace_starts_afresh(values, after, rest);
                let name = front.subrange(1, n as int + 1);
                let replacement = match text_under(values, name) {
                    Some(value) => value,
                    None => front.take(n as int + 2),
                };
                assert(replacement + (expanded(values, after) + expanded(values, rest))
                    =~= replacement + expanded(values, after) + expanded(values, rest));
            },
            None => {
                let after = front.drop_first();
                lemma_a_brace_starts_afresh(values, after, rest);
                assert(seq![front[0]] + (expanded(values, after) + expanded(values, rest))
                    =~= seq![front[0]] + expanded(values, after) + expanded(values, rest));
            },
        }
    }
}

proof fn lemma_run_within(text: Seq<char>, rest: Seq<char>)
    requires
        rest.len() > 0,
        !is_name_char(rest[0]),
    ensures
        name_run(text + rest) == name_run(text),
        name_run(text) <= text.len(),
    decreases text.len(),
{
    if text.len() > 0 {
        assert((text + rest).drop_first() =~= text.drop_first() + rest);
        lemma_run_within(text.drop_first(), rest);
    } else {
        assert(text + rest =~= rest);
    }
}

/// A token's name is the longest run of lower-case letters, digits and underscores.
pub proof fn law_a_name_is_the_longest_plain_run(text: Seq<char>)
    ensures
        name_run(text) <= text.len(),
        forall|i: int|
            0 <= i < name_run(text) ==> ('a' <= #[trigger] text[i] && text[i] <= 'z') || ('0'
                <= text[i] && text[i] <= '9') || text[i] == '_',
        name_run(text) < text.len() ==> {
            let c = text[name_run(text) as int];
            !('a' <= c && c <= 'z') && !('0' <= c && c <= '9') && c != '_'
        },
    decreases text.len(),
{
    if text.len() > 0 && is_name_char(text[0]) {
        let rest = text.drop_first();
        law_a_name_is_the_longest_plain_run(rest);
        assert forall|i: int| 0 <= i < name_run(text) implies ('a' <= #[trigger] text[i] && text[i]
            <= 'z') || ('0' <= text[i] && text[i] <= '9') || text[i] == '_' by {
            if i > 0 {
                assert(rest[i - 1] == text[i]);
            }
        }
        if name_run(text) < text.len() {
            assert(rest[name_run(rest) as int] == text[name_run(text) as int]);
        }
    }
}

/// A variable has the value of the last token of its name: one more token sets its own
/// variable and leaves every other as it was.
pub proof fn law_a_token_sets_its_own_variable(
    values: Seq<(String, String)>,
    name: String,
    value: String,
    other: Seq<char>,
)
    ensures
        env_value(values.push((name, value)), "VC_"@ + crate::text::uppercased(name@)) == Some(
            value,
        ),
        other != "VC_"@ + crate::text::uppercased(name@) ==> env_value(
            values.push((name, value)),
            other,
        ) == env_value(values, other),
{
    assert(values.push((name, value)).drop_last() =~= values);
}

} // verus!
