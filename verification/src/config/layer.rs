//! Layers of configuration text, and the document they make together.
//!
//! A configuration is assembled from layers: an embedded baseline, the user's `config.toml`,
//! then any `conf.d/*.toml` drop-ins, deep-merged in that order. Profiles then inherit from
//! `[defaults]`, so a profile only states what it does differently.

use vstd::prelude::*;

use super::document::{inherit_defaults, merge_into, Table, Tree, Item};
use super::error::ConfigError;
use crate::names::Named;

verus! {

/// One source of configuration text, labelled so diagnostics can say where a problem came
/// from.
#[derive(Debug, Clone, PartialEq, Eq)]
pub struct Layer {
    pub source: String,
    pub text: String,
}

impl Layer {
    pub fn new(source: String, text: String) -> (result: Self)
        ensures
            result.source == source,
            result.text == text,
    {
        Layer { source, text }
    }
}

/// A value of the `toml` crate.
#[verifier::external_type_specification]
#[verifier::external_body]
pub struct ExTomlValue(toml::Value);

/// The name of what a value of the `toml` crate says.
pub uninterp spec fn toml_tree(value: toml::Value) -> Tree;

/// The name of what the `toml` crate makes of a text: the table it describes, or the message
/// of the error it holds.
pub uninterp spec fn toml_parse(text: Seq<char>) -> Result<Tree, Seq<char>>;

/// Parses TOML text.
///
/// Trusted: parsing a `str` as a `toml::Table` gives a table, or an error whose message
/// depends on the text alone. What TOML means is left to the `toml` crate.
#[verifier::external_body]
fn parse_toml(text: &str) -> (result: Result<toml::Value, String>)
    ensures
        match result {
            Ok(value) => toml_parse(text@) == Ok::<Tree, Seq<char>>(toml_tree(value))
                && toml_tree(value) is Table,
            Err(message) => toml_parse(text@) == Err::<Tree, Seq<char>>(message@),
        },
{
    text.parse::<toml::Table>().map(toml::Value::Table).map_err(|error| error.to_string())
}

/// A value of the `toml` crate, taken apart one level deep.
pub enum Opened {
    Text(String),
    Integer(i64),
    Float(u64),
    Boolean(bool),
    Datetime(String),
    Array(Vec<toml::Value>),
    Table(Vec<(String, toml::Value)>),
}

/// Takes a value of the `toml` crate apart, one level deep.
///
/// Trusted: a `toml::Value` is exactly one of its variants, and walking a `toml::Table` gives
/// its entries in the order of their keys, each key once.
#[verifier::external_body]
fn open_toml(value: toml::Value) -> (result: Opened)
    ensures
        match result {
            Opened::Text(text) => toml_tree(value) == Tree::Text(text@),
            Opened::Integer(n) => toml_tree(value) == Tree::Integer(n as int),
            Opened::Float(bits) => toml_tree(value) == Tree::Float(bits),
            Opened::Boolean(b) => toml_tree(value) == Tree::Boolean(b),
            Opened::Datetime(text) => toml_tree(value) == Tree::Datetime(text@),
            Opened::Array(items) => toml_tree(value) == Tree::Array(
                items@.map_values(|item: toml::Value| toml_tree(item)),
            ),
            Opened::Table(entries) => toml_tree(value) == Tree::Table(
                entries@.map_values(|e: (String, toml::Value)| (e.0@, toml_tree(e.1))),
            ) && crate::names::ascending(entries@),
        },
{
    match value {
        toml::Value::String(text) => Opened::Text(text),
        toml::Value::Integer(n) => Opened::Integer(n),
        toml::Value::Float(number) => Opened::Float(number.to_bits()),
        toml::Value::Boolean(b) => Opened::Boolean(b),
        toml::Value::Datetime(at) => Opened::Datetime(at.to_string()),
        toml::Value::Array(items) => Opened::Array(items),
        toml::Value::Table(table) => Opened::Table(table.into_iter().collect()),
    }
}

/// A value of the `toml` crate, as a value of this library.
fn read_value(value: toml::Value) -> (result: Item)
    ensures
        super::document::tree_of(result) == toml_tree(value),
    decreases toml_tree(value),
{
    let ghost tree = toml_tree(value);
    match open_toml(value) {
        Opened::Text(text) => Item::Text(text),
        Opened::Integer(n) => Item::Integer(n),
        Opened::Float(bits) => Item::Float(bits),
        Opened::Boolean(b) => Item::Boolean(b),
        Opened::Datetime(text) => Item::Datetime(text),
        Opened::Array(items) => {
            let ghost all = items@;
            let mut items = items;
            let mut out: Vec<Item> = Vec::new();
            let ghost mut taken: int = 0;
            assert(items@ =~= all.skip(0));
            while items.len() > 0
                invariant
                    0 <= taken <= all.len(),
                    items@ == all.skip(taken),
                    out.len() == taken,
                    tree == toml_tree(value),
                    tree == Tree::Array(all.map_values(|item: toml::Value| toml_tree(item))),
                    forall|j: int|
                        0 <= j < taken ==> super::document::tree_of(#[trigger] out@[j])
                            == toml_tree(all[j]),
                decreases items.len(),
            {
                let item = items.remove(0);
                proof {
                    assert(item == all[taken]);
                    assert(tree->Array_0[taken] == toml_tree(item));
                    assert(decreases_to!(tree => tree->Array_0));
                    assert(decreases_to!(tree->Array_0 => tree->Array_0[taken]));
                }
                out.push(read_value(item));
                proof {
                    taken = taken + 1;
                    assert(items@ =~= all.skip(taken));
                }
            }
            let result = Item::Array(out);
            assert(super::document::tree_of(result)->Array_0 =~= tree->Array_0);
            result
        },
        Opened::Table(entries) => {
            let ghost all = entries@;
            let mut entries = entries;
            let mut out: Vec<(String, Item)> = Vec::new();
            let ghost mut taken: int = 0;
            assert(entries@ =~= all.skip(0));
            while entries.len() > 0
                invariant
                    0 <= taken <= all.len(),
                    entries@ == all.skip(taken),
                    out.len() == taken,
                    tree == toml_tree(value),
                    tree == Tree::Table(
                        all.map_values(|e: (String, toml::Value)| (e.0@, toml_tree(e.1))),
                    ),
                    forall|j: int|
                        0 <= j < taken ==> (#[trigger] out@[j]).0@ == all[j].0@
                            && super::document::tree_of(out@[j].1) == toml_tree(all[j].1),
                decreases entries.len(),
            {
                let (key, inner) = entries.remove(0);
                proof {
                    assert(tree->Table_0[taken] == (key@, toml_tree(inner)));
                    assert(decreases_to!(tree => tree->Table_0));
                    assert(decreases_to!(tree->Table_0 => tree->Table_0[taken]));
                    assert(decreases_to!(tree->Table_0[taken] => tree->Table_0[taken].1));
                }
                out.push((key, read_value(inner)));
                proof {
                    taken = taken + 1;
                    assert(entries@ =~= all.skip(taken));
                }
            }
            proof {
                assert forall|i: int, j: int| 0 <= i < j < out@.len() implies crate::text::before(
                    #[trigger] out@[i].0@,
                    #[trigger] out@[j].0@,
                ) by {
                    assert(out@[i].0@ == all[i].0@);
                    assert(out@[j].0@ == all[j].0@);
                }
            }
            let table = Table { entries: Named::from_sorted(out) };
            proof {
                super::document::lemma_branches(table);
                assert(super::document::entries_of(table) =~= tree->Table_0);
            }
            Item::Table(table)
        },
    }
}

/// Parses a document.
pub fn parse_document(text: &str) -> (result: Result<Table, String>)
    ensures
        match result {
            Ok(table) => toml_parse(text@) == Ok::<Tree, Seq<char>>(
                Tree::Table(super::document::entries_of(table)),
            ),
            Err(message) => toml_parse(text@) == Err::<Tree, Seq<char>>(message@),
        },
{
    match parse_toml(text) {
        Ok(value) => {
            match read_value(value) {
                Item::Table(table) => Ok(table),
                _ => Ok(Table::new()),
            }
        },
        Err(message) => Err(message),
    }
}

/// What layers make together, or the first of them that is not valid TOML with its message.
pub open spec fn stacked(layers: Seq<Layer>) -> Result<Seq<(Seq<char>, Tree)>, (Seq<char>, Seq<char>)>
    decreases layers.len(),
{
    if layers.len() == 0 {
        Ok(Seq::empty())
    } else {
        match stacked(layers.drop_last()) {
            Err(error) => Err(error),
            Ok(below) => match toml_parse(layers.last().text@) {
                Ok(table) => Ok(super::document::merged(below, table->Table_0)),
                Err(message) => Err((layers.last().source@, message)),
            },
        }
    }
}

/// A document, as it was written and with every profile's inheritance resolved.
#[derive(Debug, Clone, PartialEq, Eq)]
pub struct Document {
    pub written: Table,
    pub resolved: Table,
}

/// Merge an explicit list of layers, and resolve what profiles inherit.
///
/// Inheritance is resolved while everything is still untyped. Afterwards each profile carries
/// a complete `capture`, `session` and `continuation` table of its own.
pub fn assemble(layers: &[Layer]) -> (result: Result<Document, ConfigError>)
    ensures
        match (result, stacked(layers@)) {
            (Ok(document), Ok(entries)) => {
                &&& super::document::entries_of(document.written) == entries
                &&& super::document::entries_of(document.resolved) == super::document::inherited(
                    entries,
                )
            },
            (Err(ConfigError::Syntax { source_name, message }), Err(error)) => source_name@
                == error.0 && message@ == error.1,
            _ => false,
        },
{
    let mut document = Table::new();
    let mut i: usize = 0;
    assert(stacked(layers@.take(0)) == Ok::<
        Seq<(Seq<char>, Tree)>,
        (Seq<char>, Seq<char>),
    >(Seq::empty()));
    while i < layers.len()
        invariant
            i <= layers.len(),
            stacked(layers@.take(i as int)) == Ok::<
                Seq<(Seq<char>, Tree)>,
                (Seq<char>, Seq<char>),
            >(super::document::entries_of(document)),
        decreases layers.len() - i,
    {
        proof {
            assert(layers@.take(i + 1).drop_last() =~= layers@.take(i as int));
            assert(layers@.take(i + 1).last() == layers@[i as int]);
        }
        match parse_document(layers[i].text.as_str()) {
            Ok(table) => merge_into(&mut document, table),
            Err(message) => {
                proof {
                    lemma_error_stays(layers@, i + 1);
                }
                return Err(
                    ConfigError::Syntax { source_name: layers[i].source.clone(), message },
                );
            },
        }
        i += 1;
    }
    assert(layers@.take(i as int) =~= layers@);
    let written = document.clone();
    inherit_defaults(&mut document);
    Ok(Document { written, resolved: document })
}

proof fn lemma_error_stays(layers: Seq<Layer>, n: int)
    requires
        0 <= n <= layers.len(),
        stacked(layers.take(n)) is Err,
    ensures
        stacked(layers) == stacked(layers.take(n)),
    decreases layers.len() - n,
{
    if n == layers.len() {
        assert(layers.take(n) =~= layers);
    } else {
        assert(layers.take(n + 1).drop_last() =~= layers.take(n));
        lemma_error_stays(layers, n + 1);
    }
}

/// A layer that is not valid TOML is named, whatever comes after it.
pub proof fn law_a_syntax_error_names_its_layer(layers: Seq<Layer>, more: Seq<Layer>)
    requires
        stacked(layers) is Err,
    ensures
        stacked(layers + more) == stacked(layers),
{
    assert((layers + more).take(layers.len() as int) =~= layers);
    lemma_error_stays(layers + more, layers.len() as int);
}

/// One more layer is merged over those below it, and a layer that cannot be read stops there,
/// named with what is wrong.
pub proof fn law_a_layer_goes_on_top(layers: Seq<Layer>, layer: Layer)
    ensures
        stacked(Seq::empty()) == Ok::<_, (Seq<char>, Seq<char>)>(
            Seq::<(Seq<char>, Tree)>::empty(),
        ),
        match (stacked(layers), toml_parse(layer.text@)) {
            (Ok(below), Ok(table)) => stacked(layers.push(layer)) == Ok::<
                _,
                (Seq<char>, Seq<char>),
            >(super::document::merged(below, table->Table_0)),
            (Ok(below), Err(message)) => stacked(layers.push(layer)) == Err::<
                Seq<(Seq<char>, Tree)>,
                _,
            >((layer.source@, message)),
            (Err(error), _) => stacked(layers.push(layer)) == Err::<Seq<(Seq<char>, Tree)>, _>(
                error,
            ),
        },
{
    assert(layers.push(layer).drop_last() =~= layers);
}

} // verus!
