//! From a document to a configuration that can be used.
//!
//! ```text
//! layers ──► assemble ──► a resolved document ──► a typed Config ──► judge ──► Loaded
//! ```
//!
//! Giving the document its types is a deserializer's work. Everything around it is here:
//! which files are layers, what they make together, and whether what came out can be used.

use vstd::prelude::*;

use super::document::Table;
use super::embedded::EMBEDDED_DEFAULT;
use super::error::{ConfigError, Issue};
use super::keys::{suggest, unknown_keys};
use super::layer::Layer;
use super::runtime::PresenterConfig;
use super::sink::SinkConfig;
use super::transcriber::TranscriberConfig;
use super::validate::check;
use super::Config;
use crate::text::{chars_of, concat3, text_before};

verus! {

/// A configuration plus anything questionable noticed while loading it.
///
/// Warnings are returned rather than logged so that `config check` can print them, the
/// daemon can log them, and tests can assert on them, all from the same code path.
#[derive(Debug, Clone, PartialEq, Eq)]
pub struct Loaded {
    pub config: Config,
    pub warnings: Vec<Issue>,
}

// ── which files ─────────────────────────────────────────────────────────────

/// Whether a file name has the extension `toml`. A name that is nothing but an extension has
/// none.
pub open spec fn is_toml(name: Seq<char>) -> bool {
    ".toml"@.is_suffix_of(name) && name.len() > ".toml"@.len()
}

/// Whether texts stand in ascending order.
pub open spec fn in_order(names: Seq<Seq<char>>) -> bool {
    forall|i: int, j: int|
        0 <= i < j < names.len() ==> !crate::text::before(#[trigger] names[j], #[trigger] names[i])
}

fn has_toml_extension(name: &str) -> (result: bool)
    ensures
        result == is_toml(name@),
{
    let chars = chars_of(name);
    let extension = chars_of(".toml");
    if chars.len() <= extension.len() {
        return false;
    }
    let at: usize = chars.len() - extension.len();
    let found = crate::text::matches_at(&chars, &extension, at);
    assert(chars@.subrange(at as int, at + extension.len()) =~= name@.skip(at as int));
    assert(".toml"@.is_suffix_of(name@) == (name@.skip(at as int) == ".toml"@)) by {
        assert(name@.subrange(at as int, name@.len() as int) =~= name@.skip(at as int));
    }
    found
}

/// The drop-ins among the files of a directory, in the order in which they apply.
///
/// Drop-ins apply in filename order, which is why the convention is to number them. Editor
/// backups and notes live in the same directory and are left out.
pub fn select_drop_ins(names: Vec<String>) -> (result: Vec<String>)
    ensures
        in_order(crate::text::texts(result@)),
        crate::text::texts(result@).to_multiset() == crate::text::texts(names@).filter(
            |name: Seq<char>| is_toml(name),
        ).to_multiset(),
{
    let ghost all = crate::text::texts(names@);
    let ghost pred = |name: Seq<char>| is_toml(name);
    let mut out: Vec<String> = Vec::new();
    let mut i: usize = 0;
    proof {
        assert(all.take(0).filter(pred) =~= Seq::<Seq<char>>::empty()) by {
            reveal(Seq::filter);
        }
        assert(crate::text::texts(out@) =~= Seq::<Seq<char>>::empty());
    }
    while i < names.len()
        invariant
            i <= names.len(),
            all == crate::text::texts(names@),
            pred == (|name: Seq<char>| is_toml(name)),
            in_order(crate::text::texts(out@)),
            crate::text::texts(out@).to_multiset() == all.take(i as int).filter(pred).to_multiset(),
        decreases names.len() - i,
    {
        let ghost sorted = crate::text::texts(out@);
        proof {
            assert(all.take(i + 1) =~= all.take(i as int).push(all[i as int]));
            all.take(i as int).lemma_filter_push(all[i as int], pred);
            assert(all[i as int] == names@[i as int]@);
        }
        if has_toml_extension(names[i].as_str()) {
            let mut at: usize = out.len();
            while at > 0 && text_before(names[i].as_str(), out[at - 1].as_str())
                invariant
                    at <= out.len(),
                    i < names.len(),
                    sorted == crate::text::texts(out@),
                    forall|j: int|
                        at <= j < sorted.len() ==> crate::text::before(
                            names@[i as int]@,
                            #[trigger] sorted[j],
                        ),
                decreases at,
            {
                assert(sorted[at - 1] == out@[at - 1]@);
                at -= 1;
            }
            proof {
                if at > 0 {
                    assert(sorted[at - 1] == out@[at - 1]@);
                }
                lemma_insert_in_order(sorted, at as int, names@[i as int]@);
                vstd::seq_lib::to_multiset_insert(sorted, at as int, names@[i as int]@);
                vstd::seq_lib::to_multiset_build(
                    all.take(i as int).filter(pred),
                    all[i as int],
                );
            }
            out.insert(at, names[i].clone());
            assert(crate::text::texts(out@) =~= sorted.insert(at as int, names@[i as int]@));
        }
        i += 1;
    }
    assert(all.take(i as int) =~= all);
    out
}

/// The layers of a configuration, in the order in which they apply: the built-in baseline,
/// the user's file if there is one, and then the drop-ins.
pub fn stack(main: Option<Layer>, drop_ins: Vec<Layer>) -> (result: Vec<Layer>)
    ensures
        result@.len() == 1 + (if main is Some {
            1int
        } else {
            0int
        }) + drop_ins@.len(),
        result@[0].source@ == "<embedded default>"@,
        result@[0].text@ == EMBEDDED_DEFAULT@,
        main matches Some(layer) ==> result@[1] == layer,
        result@.skip(result@.len() - drop_ins@.len()) == drop_ins@,
{
    let mut layers: Vec<Layer> = Vec::new();
    layers.push(Layer::new("<embedded default>".to_owned(), EMBEDDED_DEFAULT.to_owned()));
    match main {
        Some(layer) => {
            layers.push(layer);
        },
        None => {},
    }
    let ghost first = layers@;
    let mut rest = drop_ins;
    layers.append(&mut rest);
    assert(layers@ =~= first + drop_ins@);
    assert(layers@.skip(layers@.len() - drop_ins@.len()) =~= drop_ins@);
    layers
}

proof fn lemma_insert_in_order(sorted: Seq<Seq<char>>, at: int, name: Seq<char>)
    requires
        in_order(sorted),
        0 <= at <= sorted.len(),
        forall|j: int|
            at <= j < sorted.len() ==> crate::text::before(name, #[trigger] sorted[j]),
        at > 0 ==> !crate::text::before(name, sorted[at - 1]),
    ensures
        in_order(sorted.insert(at, name)),
{
    let grown = sorted.insert(at, name);
    assert forall|i: int, j: int| 0 <= i < j < grown.len() implies !crate::text::before(
        #[trigger] grown[j],
        #[trigger] grown[i],
    ) by {
        let i0 = if i < at { i } else { i - 1 };
        let j0 = if j < at { j } else { j - 1 };
        if j == at {
            // `name` does not come before the one just in front of it, nor before what that
            // one does not come before.
            if crate::text::before(name, sorted[i]) && i < at - 1 {
                crate::text::lemma_before_total(sorted[at - 1], sorted[i]);
                if crate::text::before(sorted[i], sorted[at - 1]) {
                    crate::text::lemma_before_transitive(name, sorted[i], sorted[at - 1]);
                }
            }
        } else if i == at {
            if crate::text::before(sorted[j0], name) {
                crate::text::lemma_before_transitive(sorted[j0], name, sorted[j0]);
                crate::text::lemma_before_irreflexive(sorted[j0]);
            }
        } else {
            assert(grown[i] == sorted[i0]);
            assert(grown[j] == sorted[j0]);
        }
    }
}

// ── keys that were ignored ──────────────────────────────────────────────────

/// The path prefixes of a transcriber under which keys are the user's to choose.
pub open spec fn transcriber_free() -> spec_fn((String, TranscriberConfig)) -> Seq<Seq<char>> {
    |e: (String, TranscriberConfig)|
        {
            let base = "transcribers."@ + e.0@;
            seq![
                base + ".headers."@,
                base + ".form."@,
                base + ".json."@,
                base + ".query."@,
                base + ".env."@,
            ]
        }
}

/// The path prefixes of a sink under which keys are the user's to choose.
pub open spec fn sink_free() -> spec_fn((String, SinkConfig)) -> Seq<Seq<char>> {
    |e: (String, SinkConfig)|
        {
            let base = "sinks."@ + e.0@;
            seq![base + ".headers."@, base + ".env."@, base + ".form."@, base + ".body.form."@]
        }
}

/// The path prefixes of a presenter under which keys are the user's to choose.
pub open spec fn presenter_free() -> spec_fn((String, PresenterConfig)) -> Seq<Seq<char>> {
    |e: (String, PresenterConfig)| seq!["presenters."@ + e.0@ + ".env."@]
}

/// Key prefixes whose children are arbitrary by design, and so cannot be checked against the
/// schema. HTTP headers, environment variables and provider-specific form fields all live
/// here.
pub open spec fn free_form(config: Config) -> Seq<Seq<char>> {
    seq!["__free_form_never_matches"@] + crate::lists::gathered(
        config.transcribers@,
        transcriber_free(),
    )
        + crate::lists::gathered(config.sinks@, sink_free()) + crate::lists::gathered(
        config.presenters@,
        presenter_free(),
    )
}

fn free_form_prefixes(config: &Config) -> (result: Vec<String>)
    ensures
        crate::text::texts(result@) == free_form(*config),
{
    let mut out: Vec<String> = Vec::new();
    out.push("__free_form_never_matches".to_owned());
    let ghost start = seq!["__free_form_never_matches"@];
    let transcribers = config.transcribers.entries();
    let mut i: usize = 0;
    assert(crate::text::texts(out@) =~= start + crate::lists::gathered(
        transcribers@.take(0),
        transcriber_free(),
    ));
    while i < transcribers.len()
        invariant
            i <= transcribers.len(),
            crate::text::texts(out@) == start + crate::lists::gathered(
                transcribers@.take(i as int),
                transcriber_free(),
            ),
        decreases transcribers.len() - i,
    {
        let name = transcribers[i].0.as_str();
        let ghost out0 = out@;
        push_prefix(&mut out, "transcribers.", name, ".headers.");
        push_prefix(&mut out, "transcribers.", name, ".form.");
        push_prefix(&mut out, "transcribers.", name, ".json.");
        push_prefix(&mut out, "transcribers.", name, ".query.");
        push_prefix(&mut out, "transcribers.", name, ".env.");
        proof {
            crate::lists::lemma_gathered_one_more(transcribers@, transcriber_free(), i as int);
            let more = transcriber_free()(transcribers@[i as int]);
            assert(crate::text::texts(out@) =~= crate::text::texts(out0) + more);
            assert(crate::text::texts(out@) =~= start + crate::lists::gathered(
                transcribers@.take(i + 1),
                transcriber_free(),
            ));
        }
        i += 1;
    }
    assert(transcribers@.take(i as int) =~= config.transcribers@);
    let ghost first = crate::text::texts(out@);
    let sinks = config.sinks.entries();
    let mut i: usize = 0;
    assert(first + crate::lists::gathered(sinks@.take(0), sink_free()) =~= first);
    while i < sinks.len()
        invariant
            i <= sinks.len(),
            crate::text::texts(out@) == first + crate::lists::gathered(
                sinks@.take(i as int),
                sink_free(),
            ),
        decreases sinks.len() - i,
    {
        let name = sinks[i].0.as_str();
        let ghost out0 = out@;
        push_prefix(&mut out, "sinks.", name, ".headers.");
        push_prefix(&mut out, "sinks.", name, ".env.");
        push_prefix(&mut out, "sinks.", name, ".form.");
        push_prefix(&mut out, "sinks.", name, ".body.form.");
        proof {
            crate::lists::lemma_gathered_one_more(sinks@, sink_free(), i as int);
            let more = sink_free()(sinks@[i as int]);
            assert(crate::text::texts(out@) =~= crate::text::texts(out0) + more);
            assert(crate::text::texts(out@) =~= first + crate::lists::gathered(
                sinks@.take(i + 1),
                sink_free(),
            ));
        }
        i += 1;
    }
    assert(sinks@.take(i as int) =~= config.sinks@);
    let ghost second = crate::text::texts(out@);
    let presenters = config.presenters.entries();
    let mut i: usize = 0;
    assert(second + crate::lists::gathered(presenters@.take(0), presenter_free()) =~= second);
    while i < presenters.len()
        invariant
            i <= presenters.len(),
            crate::text::texts(out@) == second + crate::lists::gathered(
                presenters@.take(i as int),
                presenter_free(),
            ),
        decreases presenters.len() - i,
    {
        let ghost out0 = out@;
        push_prefix(&mut out, "presenters.", presenters[i].0.as_str(), ".env.");
        proof {
            crate::lists::lemma_gathered_one_more(presenters@, presenter_free(), i as int);
            let more = presenter_free()(presenters@[i as int]);
            assert(crate::text::texts(out@) =~= crate::text::texts(out0) + more);
            assert(crate::text::texts(out@) =~= second + crate::lists::gathered(
                presenters@.take(i + 1),
                presenter_free(),
            ));
        }
        i += 1;
    }
    assert(presenters@.take(i as int) =~= config.presenters@);
    out
}

fn push_prefix(out: &mut Vec<String>, section: &str, name: &str, field: &str)
    ensures
        crate::text::texts(final(out)@) == crate::text::texts(old(out)@).push(
            section@ + name@ + field@,
        ),
{
    let ghost before = crate::text::texts(out@);
    out.push(concat3(section, name, field));
    assert(crate::text::texts(out@) =~= before.push(section@ + name@ + field@));
}

/// A key the user wrote that the schema silently ignored.
pub open spec fn unknown_key_issue(
    path: Seq<char>,
    known: Seq<Seq<char>>,
) -> super::error::IssueView {
    match super::keys::suggestion(path, known) {
        Some(close) => super::error::hinted(
            path,
            "unknown configuration key"@,
            "did you mean `"@ + close + "`?"@,
        ),
        None => super::error::issue(path, "unknown configuration key"@),
    }
}

/// Every key the user wrote that the schema silently ignored, given the document that the
/// configuration serializes back to.
pub open spec fn ignored_keys(
    config: Config,
    written: Seq<(Seq<char>, super::document::Tree)>,
    round_tripped: Seq<(Seq<char>, super::document::Tree)>,
) -> Seq<super::error::IssueView> {
    let known = super::keys::leaves(round_tripped, Seq::empty());
    super::keys::unknown_of(
        super::keys::leaves(written, Seq::empty()),
        known,
        free_form(config),
    ).map_values(|path: Seq<char>| unknown_key_issue(path, known))
}

/// Report keys the user wrote that the schema silently ignored.
///
/// A misspelled key that parses fine and does nothing is the worst kind of configuration
/// bug: everything looks correct and the setting simply has no effect.
pub fn unknown_key_issues(config: &Config, written: &Table, round_tripped: &Table) -> (result: Vec<
    Issue,
>)
    ensures
        super::error::views(result@) == ignored_keys(
            *config,
            super::document::entries_of(*written),
            super::document::entries_of(*round_tripped),
        ),
{
    let prefixes = free_form_prefixes(config);
    let unknown = unknown_keys(written, round_tripped, &prefixes);
    let ghost known = super::keys::leaves(
        super::document::entries_of(*round_tripped),
        Seq::empty(),
    );
    let ghost all = crate::text::texts(unknown@);
    let mut out: Vec<Issue> = Vec::new();
    let mut i: usize = 0;
    while i < unknown.len()
        invariant
            i <= unknown.len(),
            out.len() == i,
            known == super::keys::leaves(
                super::document::entries_of(*round_tripped),
                Seq::empty(),
            ),
            forall|j: int|
                0 <= j < i ==> (#[trigger] out@[j])@ == unknown_key_issue(unknown@[j]@, known),
        decreases unknown.len() - i,
    {
        let path = unknown[i].as_str();
        let found = Issue::new(path.to_owned(), "unknown configuration key".to_owned());
        match suggest(path, round_tripped) {
            Some(close) => {
                out.push(found.with_hint(concat3("did you mean `", close.as_str(), "`?")));
            },
            None => {
                out.push(found);
            },
        }
        i += 1;
    }
    assert(super::error::views(out@) =~= ignored_keys(
        *config,
        super::document::entries_of(*written),
        super::document::entries_of(*round_tripped),
    ));
    out
}

// ── the verdict ─────────────────────────────────────────────────────────────

/// Every problem with a configuration: what is wrong with it, and the keys it ignored. The
/// second is left out when the configuration could not be turned back into a document, since
/// skipping that check is better than refusing to start.
pub open spec fn problems(
    config: Config,
    written: Seq<(Seq<char>, super::document::Tree)>,
    round_tripped: Option<Seq<(Seq<char>, super::document::Tree)>>,
) -> Seq<super::error::IssueView> {
    super::validate::config_errors(config) + (match round_tripped {
        Some(document) => ignored_keys(config, written, document),
        None => Seq::empty(),
    })
}

impl Config {
    /// Decide whether a typed configuration can be used: it can if and only if there is no
    /// problem with it, and otherwise every problem is reported.
    ///
    /// `written` is the document the configuration was typed from, and `round_tripped` the
    /// one it serializes back to.
    pub fn judge(self, written: &Table, round_tripped: Option<&Table>) -> (result: Result<
        Loaded,
        ConfigError,
    >)
        ensures
            ({
                let found = problems(
                    self,
                    super::document::entries_of(*written),
                    match round_tripped {
                        Some(document) => Some(super::document::entries_of(*document)),
                        None => None,
                    },
                );
                match result {
                    Ok(loaded) => found.len() == 0 && loaded.config == self && super::error::views(
                        loaded.warnings@,
                    ) == super::validate::config_warnings(self),
                    Err(ConfigError::Invalid { issues }) => found.len() > 0 && super::error::views(
                        issues@,
                    ) == found,
                    Err(_) => false,
                }
            }),
    {
        let mut report = check(&self);
        match round_tripped {
            Some(document) => {
                let ghost errors = report.errors@;
                let mut ignored = unknown_key_issues(&self, written, document);
                let ghost more = ignored@;
                report.errors.append(&mut ignored);
                assert(super::error::views(report.errors@) =~= super::error::views(errors)
                    + super::error::views(more));
            },
            None => {
                assert(super::validate::config_errors(self) + Seq::<
                    super::error::IssueView,
                >::empty() =~= super::validate::config_errors(self));
            },
        }
        assert(super::error::views(report.errors@).len() == report.errors@.len());
        if report.errors.len() == 0 {
            Ok(Loaded { config: self, warnings: report.warnings })
        } else {
            Err(ConfigError::Invalid { issues: report.errors })
        }
    }

    /// The error for a document that has no types: what the deserializer said, about the
    /// document as a whole.
    pub fn untyped(message: String) -> (result: ConfigError)
        ensures
            result matches ConfigError::Invalid { issues } && super::error::views(issues@) == seq![
                super::error::issue("<root>"@, message@),
            ],
    {
        let mut issues: Vec<Issue> = Vec::new();
        issues.push(Issue::new("<root>".to_owned(), message));
        assert(super::error::views(issues@) =~= seq![super::error::issue("<root>"@, message@)]);
        ConfigError::Invalid { issues }
    }
}

/// Warnings do not prevent loading: whatever is questionable, a configuration without
/// problems is usable.
pub proof fn law_warnings_do_not_prevent_loading(
    config: Config,
    written: Seq<(Seq<char>, super::document::Tree)>,
    round_tripped: Seq<(Seq<char>, super::document::Tree)>,
)
    requires
        super::validate::config_errors(config).len() == 0,
        ignored_keys(config, written, round_tripped).len() == 0,
    ensures
        problems(config, written, Some(round_tripped)).len() == 0,
{
}

/// Every problem is reported in one pass: what is wrong with the configuration and the keys
/// it ignored are all there, whatever else is.
pub proof fn law_every_problem_is_reported(
    config: Config,
    written: Seq<(Seq<char>, super::document::Tree)>,
    round_tripped: Seq<(Seq<char>, super::document::Tree)>,
    problem: super::error::IssueView,
)
    requires
        super::validate::config_errors(config).contains(problem) || ignored_keys(
            config,
            written,
            round_tripped,
        ).contains(problem),
    ensures
        problems(config, written, Some(round_tripped)).contains(problem),
{
    let errors = super::validate::config_errors(config);
    let ignored = ignored_keys(config, written, round_tripped);
    let all = problems(config, written, Some(round_tripped));
    if errors.contains(problem) {
        let i = choose|i: int| 0 <= i < errors.len() && errors[i] == problem;
        assert(all[i] == problem);
    } else {
        let i = choose|i: int| 0 <= i < ignored.len() && ignored[i] == problem;
        assert(all[errors.len() + i] == problem);
    }
}

proof fn lemma_gathered_contains<T>(
    items: Seq<T>,
    rule: spec_fn(T) -> Seq<Seq<char>>,
    i: int,
    path: Seq<char>,
)
    requires
        0 <= i < items.len(),
        rule(items[i]).contains(path),
    ensures
        crate::lists::gathered(items, rule).contains(path),
    decreases items.len(),
{
    let shorter = items.drop_last();
    let before = crate::lists::gathered(shorter, rule);
    let last = rule(items.last());
    if i == items.len() - 1 {
        let k = choose|k: int| 0 <= k < last.len() && last[k] == path;
        assert((before + last)[before.len() + k] == path);
    } else {
        lemma_gathered_contains(shorter, rule, i, path);
        let k = choose|k: int| 0 <= k < before.len() && before[k] == path;
        assert((before + last)[k] == path);
    }
}

/// The tables whose keys are the user's own are left alone: the headers, form fields, JSON
/// fields, query and environment of every transcriber, the headers, environment and form
/// fields of every sink, and the environment of every presenter.
pub proof fn law_the_users_own_tables_are_free(config: Config, i: int)
    ensures
        0 <= i < config.transcribers@.len() ==> {
            let base = "transcribers."@ + config.transcribers@[i].0@;
            &&& free_form(config).contains(base + ".headers."@)
            &&& free_form(config).contains(base + ".form."@)
            &&& free_form(config).contains(base + ".json."@)
            &&& free_form(config).contains(base + ".query."@)
            &&& free_form(config).contains(base + ".env."@)
        },
        0 <= i < config.sinks@.len() ==> {
            let base = "sinks."@ + config.sinks@[i].0@;
            &&& free_form(config).contains(base + ".headers."@)
            &&& free_form(config).contains(base + ".env."@)
            &&& free_form(config).contains(base + ".form."@)
            &&& free_form(config).contains(base + ".body.form."@)
        },
        0 <= i < config.presenters@.len() ==> free_form(config).contains(
            "presenters."@ + config.presenters@[i].0@ + ".env."@,
        ),
{
    if 0 <= i < config.transcribers@.len() {
        let rule = transcriber_free();
        let own = rule(config.transcribers@[i]);
        assert forall|k: int| 0 <= k < own.len() implies free_form(config).contains(
            #[trigger] own[k],
        ) by {
            assert(own.contains(own[k]));
            lemma_gathered_contains(config.transcribers@, rule, i, own[k]);
            let part = crate::lists::gathered(config.transcribers@, rule);
            let at = choose|at: int| 0 <= at < part.len() && part[at] == own[k];
            assert(free_form(config)[1 + at] == own[k]);
        }
        assert(own.len() == 5);
        assert(free_form(config).contains(own[0]) && free_form(config).contains(own[1])
            && free_form(config).contains(own[2]) && free_form(config).contains(own[3])
            && free_form(config).contains(own[4]));
    }
    if 0 <= i < config.sinks@.len() {
        let rule = sink_free();
        let own = rule(config.sinks@[i]);
        let skip = crate::lists::gathered(config.transcribers@, transcriber_free()).len() as int;
        assert forall|k: int| 0 <= k < own.len() implies free_form(config).contains(
            #[trigger] own[k],
        ) by {
            assert(own.contains(own[k]));
            lemma_gathered_contains(config.sinks@, rule, i, own[k]);
            let part = crate::lists::gathered(config.sinks@, rule);
            let at = choose|at: int| 0 <= at < part.len() && part[at] == own[k];
            assert(free_form(config)[1 + skip + at] == own[k]);
        }
        assert(own.len() == 4);
        assert(free_form(config).contains(own[0]) && free_form(config).contains(own[1])
            && free_form(config).contains(own[2]) && free_form(config).contains(own[3]));
    }
    if 0 <= i < config.presenters@.len() {
        let rule = presenter_free();
        let own = rule(config.presenters@[i]);
        let skip = crate::lists::gathered(config.transcribers@, transcriber_free()).len()
            + crate::lists::gathered(config.sinks@, sink_free()).len();
        assert(own.contains(own[0]));
        lemma_gathered_contains(config.presenters@, rule, i, own[0]);
        let part = crate::lists::gathered(config.presenters@, rule);
        let at = choose|at: int| 0 <= at < part.len() && part[at] == own[0];
        assert(free_form(config)[1 + skip + at] == own[0]);
    }
}

/// A file is a layer when it has a name before the extension, whatever the name is.
pub proof fn law_a_layer_is_named_before_its_extension(stem: Seq<char>)
    ensures
        is_toml(stem + ".toml"@) <==> stem.len() > 0,
{
    let name = stem + ".toml"@;
    assert(name.skip(name.len() - ".toml"@.len()) =~= ".toml"@);
}

} // verus!
