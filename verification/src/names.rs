//! Maps from names to settings, in name order.

use vstd::prelude::*;

use crate::text::{same_text, text_before};

verus! {

/// Entries under a heading of the configuration, each with its own name.
///
/// The entries stand in the order of their names and no name occurs twice, so that walking
/// them is deterministic whatever order they were written in.
#[derive(Debug, PartialEq, Eq)]
pub struct Named<V> {
    entries: Vec<(String, V)>,
}

/// Names in strictly ascending order.
pub open spec fn ascending<V>(entries: Seq<(String, V)>) -> bool {
    forall|i: int, j: int|
        0 <= i < j < entries.len() ==> crate::text::before(#[trigger] entries[i].0@, #[trigger] entries[j].0@)
}

/// The value under `name` in a list of entries, if there is one.
pub open spec fn lookup<V>(entries: Seq<(String, V)>, name: Seq<char>) -> Option<V>
    decreases entries.len(),
{
    if entries.len() == 0 {
        None
    } else if entries[0].0@ == name {
        Some(entries[0].1)
    } else {
        lookup(entries.drop_first(), name)
    }
}

/// Whether some entry has this name.
pub open spec fn has_name<V>(entries: Seq<(String, V)>, name: Seq<char>) -> bool {
    exists|i: int| 0 <= i < entries.len() && #[trigger] entries[i].0@ == name
}

/// The names of a list of entries, in order.
pub open spec fn names_of<V>(entries: Seq<(String, V)>) -> Seq<Seq<char>> {
    entries.map_values(|e: (String, V)| e.0@)
}

/// A list of entries in order with `value` put under `name`, in place of what stood there.
pub open spec fn inserted<V>(entries: Seq<(String, V)>, name: String, value: V) -> Seq<(String, V)>
    decreases entries.len(),
{
    if entries.len() == 0 {
        seq![(name, value)]
    } else if entries[0].0@ == name@ {
        seq![(name, value)] + entries.drop_first()
    } else if crate::text::before(entries[0].0@, name@) {
        seq![entries[0]] + inserted(entries.drop_first(), name, value)
    } else {
        seq![(name, value)] + entries
    }
}

/// An entry at position `i` of a list without repeated names is what its name looks up.
pub proof fn lemma_lookup_at<V>(entries: Seq<(String, V)>, i: int)
    requires
        0 <= i < entries.len(),
        ascending(entries),
    ensures
        lookup(entries, entries[i].0@) == Some(entries[i].1),
    decreases entries.len(),
{
    if i > 0 {
        if entries[0].0@ == entries[i].0@ {
            crate::text::lemma_before_irreflexive(entries[i].0@);
        }
        let rest = entries.drop_first();
        assert forall|a: int, b: int| 0 <= a < b < rest.len() implies crate::text::before(
            #[trigger] rest[a].0@,
            #[trigger] rest[b].0@,
        ) by {
            assert(rest[a].0@ == entries[a + 1].0@);
            assert(rest[b].0@ == entries[b + 1].0@);
        }
        lemma_lookup_at(rest, i - 1);
    }
}

/// A name that no entry has looks up nothing, and the other way round.
pub proof fn lemma_lookup_has<V>(entries: Seq<(String, V)>, name: Seq<char>)
    ensures
        lookup(entries, name) is Some == has_name(entries, name),
    decreases entries.len(),
{
    if entries.len() > 0 {
        if entries[0].0@ == name {
            assert(has_name(entries, name));
        } else {
            let rest = entries.drop_first();
            lemma_lookup_has(rest, name);
            if has_name(rest, name) {
                let i = choose|i: int| 0 <= i < rest.len() && #[trigger] rest[i].0@ == name;
                assert(entries[i + 1].0@ == name);
            }
            if has_name(entries, name) {
                let i = choose|i: int| 0 <= i < entries.len() && #[trigger] entries[i].0@ == name;
                assert(rest[i - 1].0@ == name);
            }
        }
    }
}

impl<V: Clone> Clone for Named<V> {
    fn clone(&self) -> (result: Self)
        ensures
            result@.len() == self@.len(),
            forall|i: int|
                0 <= i < self@.len() ==> (#[trigger] result@[i]).0 == self@[i].0 && cloned::<V>(
                    self@[i].1,
                    result@[i].1,
                ),
    {
        proof {
            use_type_invariant(self);
        }
        let mut entries: Vec<(String, V)> = Vec::new();
        let mut i: usize = 0;
        while i < self.entries.len()
            invariant
                i <= self.entries.len(),
                entries.len() == i,
                ascending(self.entries@),
                forall|j: int|
                    0 <= j < i ==> (#[trigger] entries@[j]).0 == self.entries@[j].0 && cloned::<V>(
                        self.entries@[j].1,
                        entries@[j].1,
                    ),
            decreases self.entries.len() - i,
        {
            entries.push((self.entries[i].0.clone(), self.entries[i].1.clone()));
            i += 1;
        }
        Named { entries }
    }
}

impl<V> View for Named<V> {
    type V = Seq<(String, V)>;

    closed spec fn view(&self) -> Seq<(String, V)> {
        self.entries@
    }
}

impl<V> Named<V> {
    #[verifier::type_invariant]
    spec fn in_order(self) -> bool {
        ascending(self.entries@)
    }

    /// No entries.
    pub fn new() -> (result: Self)
        ensures
            result@ == Seq::<(String, V)>::empty(),
    {
        Named { entries: Vec::new() }
    }

    /// The names stand in strictly ascending order.
    pub fn entries(&self) -> (result: &Vec<(String, V)>)
        ensures
            result@ == self@,
            ascending(self@),
    {
        proof {
            use_type_invariant(self);
        }
        &self.entries
    }

    /// A map of entries that stand in the order of their names.
    pub fn from_sorted(entries: Vec<(String, V)>) -> (result: Self)
        requires
            ascending(entries@),
        ensures
            result@ == entries@,
    {
        Named { entries }
    }

    /// The entries, in the order of their names.
    pub fn into_entries(self) -> (result: Vec<(String, V)>)
        ensures
            result@ == self@,
            ascending(self@),
    {
        proof {
            use_type_invariant(&self);
        }
        self.entries
    }

    pub fn len(&self) -> (result: usize)
        ensures
            result == self@.len(),
    {
        self.entries.len()
    }

    pub fn is_empty(&self) -> (result: bool)
        ensures
            result == (self@.len() == 0),
    {
        self.entries.len() == 0
    }

    /// The value under `name`.
    pub fn get(&self, name: &str) -> (result: Option<&V>)
        ensures
            match result {
                Some(value) => lookup(self@, name@) == Some(*value),
                None => lookup(self@, name@) is None,
            },
            result is Some == has_name(self@, name@),
    {
        proof {
            use_type_invariant(self);
            lemma_lookup_has(self@, name@);
        }
        let mut i: usize = 0;
        while i < self.entries.len()
            invariant
                i <= self.entries.len(),
                ascending(self@),
                self@ == self.entries@,
                forall|j: int| 0 <= j < i ==> (#[trigger] self.entries@[j]).0@ != name@,
                lookup(self@, name@) is Some == has_name(self@, name@),
            decreases self.entries.len() - i,
        {
            if same_text(self.entries[i].0.as_str(), name) {
                proof {
                    lemma_lookup_at(self@, i as int);
                }
                return Some(&self.entries[i].1);
            }
            i += 1;
        }
        assert(!has_name(self@, name@));
        None
    }

    /// Whether some entry has this name.
    pub fn contains_key(&self, name: &str) -> (result: bool)
        ensures
            result == has_name(self@, name@),
    {
        self.get(name).is_some()
    }

    /// The names, in order.
    pub fn keys(&self) -> (result: Vec<String>)
        ensures
            crate::text::texts(result@) == names_of(self@),
    {
        let mut out: Vec<String> = Vec::new();
        let mut i: usize = 0;
        while i < self.entries.len()
            invariant
                i <= self.entries.len(),
                self@ == self.entries@,
                out.len() == i,
                forall|j: int| 0 <= j < i ==> (#[trigger] out@[j])@ == self@[j].0@,
            decreases self.entries.len() - i,
        {
            out.push(self.entries[i].0.clone());
            i += 1;
        }
        assert(crate::text::texts(out@) =~= names_of(self@));
        out
    }

    /// Puts `value` under `name`, in place of what stood there.
    pub fn insert(&mut self, name: String, value: V)
        ensures
            final(self)@ == inserted(old(self)@, name, value),
            forall|other: Seq<char>| #[trigger]
                lookup(final(self)@, other) == (if other == name@ {
                    Some(value)
                } else {
                    lookup(old(self)@, other)
                }),
    {
        proof {
            use_type_invariant(&*self);
        }
        let ghost before_insert = self.entries@;
        let mut at: usize = 0;
        while at < self.entries.len() && text_before(self.entries[at].0.as_str(), name.as_str())
            invariant
                at <= self.entries.len(),
                forall|j: int|
                    0 <= j < at ==> crate::text::before(#[trigger] self.entries@[j].0@, name@),
            decreases self.entries.len() - at,
        {
            at += 1;
        }
        let mut entries: Vec<(String, V)> = Vec::new();
        std::mem::swap(&mut entries, &mut self.entries);
        let replaces = at < entries.len() && same_text(entries[at].0.as_str(), name.as_str());
        if replaces {
            entries.remove(at);
        }
        let ghost kept = entries@;
        proof {
            crate::text::lemma_before_irreflexive(name@);
            if at < before_insert.len() {
                crate::text::lemma_before_total(before_insert[at as int].0@, name@);
            }
            assert forall|j: int| at <= j < kept.len() implies crate::text::before(
                name@,
                #[trigger] kept[j].0@,
            ) by {
                if replaces {
                    assert(kept[j] == before_insert[j + 1]);
                } else if j > at {
                    crate::text::lemma_before_transitive(name@, kept[at as int].0@, kept[j].0@);
                }
            }
            assert forall|i: int, j: int| 0 <= i < j < kept.len() implies crate::text::before(
                #[trigger] kept[i].0@,
                #[trigger] kept[j].0@,
            ) by {
                if replaces {
                    let i0 = if i < at { i } else { i + 1 };
                    let j0 = if j < at { j } else { j + 1 };
                    assert(kept[i] == before_insert[i0]);
                    assert(kept[j] == before_insert[j0]);
                }
            }
        }
        entries.insert(at, (name, value));
        proof {
            let after = entries@;
            lemma_inserted_at(before_insert, at as int, name, value);
            assert(after =~= inserted(before_insert, name, value));
            assert forall|i: int, j: int| 0 <= i < j < after.len() implies crate::text::before(
                #[trigger] after[i].0@,
                #[trigger] after[j].0@,
            ) by {
                let i0 = if i < at { i } else { i - 1 };
                let j0 = if j < at { j } else { j - 1 };
                if i != at {
                    assert(after[i] == kept[i0]);
                }
                if j != at {
                    assert(after[j] == kept[j0]);
                }
            }
            assert forall|other: Seq<char>| #[trigger] lookup(after, other) == (if other == name@ {
                Some(value)
            } else {
                lookup(before_insert, other)
            }) by {
                lemma_insert_lookup(before_insert, kept, after, at as int, name@, value, other, replaces);
            }
        }
        self.entries = entries;
    }
}

/// An entry is smaller than the map it stands in.
pub proof fn lemma_entry_decreases<V>(map: Named<V>, i: int)
    requires
        0 <= i < map@.len(),
    ensures
        decreases_to!(map => map@[i].1),
{
    assert(decreases_to!(map => map.entries));
    assert(decreases_to!(map.entries => map.entries[i]));
    assert(decreases_to!(map.entries[i] => map.entries[i].1));
}

proof fn lemma_inserted_at<V>(entries: Seq<(String, V)>, at: int, name: String, value: V)
    requires
        0 <= at <= entries.len(),
        forall|j: int| 0 <= j < at ==> crate::text::before(#[trigger] entries[j].0@, name@),
        at < entries.len() ==> !crate::text::before(entries[at].0@, name@),
    ensures
        inserted(entries, name, value) == entries.take(at) + seq![(name, value)] + (if at
            < entries.len() && entries[at].0@ == name@ {
            entries.skip(at + 1)
        } else {
            entries.skip(at)
        }),
    decreases at,
{
    let rest = if at < entries.len() && entries[at].0@ == name@ {
        entries.skip(at + 1)
    } else {
        entries.skip(at)
    };
    let expected = entries.take(at) + seq![(name, value)] + rest;
    if at > 0 {
        crate::text::lemma_before_irreflexive(name@);
        let tail = entries.drop_first();
        assert forall|j: int| 0 <= j < at - 1 implies crate::text::before(
            #[trigger] tail[j].0@,
            name@,
        ) by {
            assert(tail[j] == entries[j + 1]);
        }
        lemma_inserted_at(tail, at - 1, name, value);
        assert(seq![entries[0]] + inserted(tail, name, value) =~= expected);
    } else {
        assert(inserted(entries, name, value) =~= expected);
    }
}

proof fn lemma_insert_lookup<V>(
    before_insert: Seq<(String, V)>,
    kept: Seq<(String, V)>,
    after: Seq<(String, V)>,
    at: int,
    name: Seq<char>,
    value: V,
    other: Seq<char>,
    replaces: bool,
)
    requires
        ascending(before_insert),
        ascending(after),
        0 <= at <= kept.len(),
        after.len() == kept.len() + 1,
        after[at].0@ == name,
        after[at].1 == value,
        forall|j: int| 0 <= j < at ==> after[j] == kept[j],
        forall|j: int| at < j < after.len() ==> after[j] == kept[j - 1],
        replaces ==> at < before_insert.len() && before_insert[at].0@ == name && kept
            == before_insert.remove(at),
        !replaces ==> kept == before_insert,
    ensures
        lookup(after, other) == (if other == name {
            Some(value)
        } else {
            lookup(before_insert, other)
        }),
{
    lemma_lookup_at(after, at);
    lemma_lookup_has(after, other);
    lemma_lookup_has(before_insert, other);
    if other != name {
        if has_name(before_insert, other) {
            let i = choose|i: int| 0 <= i < before_insert.len() && #[trigger] before_insert[i].0@ == other;
            let k = if i < at { i } else if replaces { i } else { i + 1 };
            assert(after[k] == before_insert[i]);
            lemma_lookup_at(after, k);
            lemma_lookup_at(before_insert, i);
        } else if has_name(after, other) {
            let k = choose|k: int| 0 <= k < after.len() && #[trigger] after[k].0@ == other;
            let i = if k < at { k } else if replaces { k } else { k - 1 };
            assert(after[k] == before_insert[i]);
        }
    }
}

/// What is found under a name is the value of the first entry of that name, and nothing is
/// exactly when there is none.
pub proof fn law_the_first_entry_of_a_name_is_found<V>(
    entries: Seq<(String, V)>,
    name: Seq<char>,
    i: int,
)
    requires
        0 <= i < entries.len(),
        entries[i].0@ == name,
        forall|j: int| 0 <= j < i ==> (#[trigger] entries[j]).0@ != name,
    ensures
        lookup(entries, name) == Some(entries[i].1),
        has_name(entries, name),
    decreases entries.len(),
{
    assert(entries[i].0@ == name);
    if i > 0 {
        assert(entries[0].0@ != name);
        let rest = entries.drop_first();
        assert forall|j: int| 0 <= j < i - 1 implies (#[trigger] rest[j]).0@ != name by {
            assert(entries[j + 1].0@ != name);
        }
        law_the_first_entry_of_a_name_is_found(rest, name, i - 1);
    }
}

/// Nothing is found under a name that no entry has.
pub proof fn law_nothing_is_found_under_another_name<V>(
    entries: Seq<(String, V)>,
    name: Seq<char>,
)
    requires
        forall|j: int| 0 <= j < entries.len() ==> (#[trigger] entries[j]).0@ != name,
    ensures
        lookup(entries, name) is None,
        !has_name(entries, name),
{
    lemma_lookup_has(entries, name);
}

/// Adding a name makes its value the one that is found under it, and leaves what is found
/// under every other.
pub proof fn law_adding_a_name_leaves_the_others<V>(
    entries: Seq<(String, V)>,
    name: String,
    value: V,
    other: Seq<char>,
)
    ensures
        lookup(inserted(entries, name, value), name@) == Some(value),
        other != name@ ==> lookup(inserted(entries, name, value), other) == lookup(
            entries,
            other,
        ),
    decreases entries.len(),
{
    let after = inserted(entries, name, value);
    if entries.len() == 0 {
        assert(after[0] == (name, value));
        assert(after.drop_first() =~= Seq::empty());
        assert(lookup(Seq::<(String, V)>::empty(), other) is None);
    } else if entries[0].0@ == name@ {
        assert(after[0] == (name, value));
        assert(after.drop_first() =~= entries.drop_first());
    } else if crate::text::before(entries[0].0@, name@) {
        assert(after[0] == entries[0]);
        assert(after.drop_first() =~= inserted(entries.drop_first(), name, value));
        law_adding_a_name_leaves_the_others(entries.drop_first(), name, value, other);
    } else {
        assert(after[0] == (name, value));
        assert(after.drop_first() =~= entries);
    }
}

} // verus!
